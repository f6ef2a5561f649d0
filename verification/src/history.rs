//! Chat history: sessions with their messages, tags and context, kept by
//! id; listing and searching give the most recently updated first.
//! Saving and loading the session files is left to the caller.

use vstd::prelude::*;
use crate::keyed::StrMap;
use crate::random::new_uuid;
use crate::text::{chars_of, concat, contains, contains_chars, lowercase, owned, str_equals, to_lowercase, copy_strings};

verus! {

/// A moment, as seconds since the Unix epoch and the nanoseconds within the
/// second.
#[derive(Clone, Copy, Debug, PartialEq, Eq, Structural)]
pub struct Stamp {
    pub secs: i64,
    pub nanos: u32,
}

/// `a` comes before `b`.
pub open spec fn stamp_before(a: Stamp, b: Stamp) -> bool {
    a.secs < b.secs || (a.secs == b.secs && a.nanos < b.nanos)
}

/// Whether `a` comes before `b`.
pub fn is_before(a: Stamp, b: Stamp) -> (r: bool)
    ensures
        r == stamp_before(a, b),
{
    a.secs < b.secs || (a.secs == b.secs && a.nanos < b.nanos)
}

/// One message of a chat.
#[derive(Debug)]
pub struct ChatMessage {
    pub role: String,
    pub content: String,
    pub timestamp: Stamp,
}

/// A piece of code attached to a chat.
#[derive(Debug)]
pub struct CodeSnippet {
    pub code: String,
    pub language: String,
    pub file_path: Option<String>,
    pub start_line: Option<u32>,
    pub end_line: Option<u32>,
}

/// What a chat is about: code, files, a repository and further notes by name.
#[derive(Debug)]
pub struct ChatContext {
    pub code_snippets: Vec<CodeSnippet>,
    pub file_paths: Vec<String>,
    pub repository_path: Option<String>,
    pub additional_context: Vec<(String, String)>,
}

/// A chat context as values.
pub struct ContextView {
    pub code_snippets: Seq<CodeSnippet>,
    pub file_paths: Seq<String>,
    pub repository_path: Option<String>,
    pub additional_context: Seq<(String, String)>,
}

impl View for ChatContext {
    type V = ContextView;

    open spec fn view(&self) -> ContextView {
        ContextView {
            code_snippets: self.code_snippets@,
            file_paths: self.file_paths@,
            repository_path: self.repository_path,
            additional_context: self.additional_context@,
        }
    }
}

/// A chat session.
#[derive(Debug)]
pub struct ChatSession {
    pub id: String,
    pub title: String,
    pub messages: Vec<ChatMessage>,
    pub model: String,
    pub created_at: Stamp,
    pub updated_at: Stamp,
    pub tags: Vec<String>,
    pub context: Option<ChatContext>,
}

/// A chat session as values.
pub struct SessionView {
    pub id: String,
    pub title: String,
    pub messages: Seq<ChatMessage>,
    pub model: String,
    pub created_at: Stamp,
    pub updated_at: Stamp,
    pub tags: Seq<String>,
    pub context: Option<ContextView>,
}

impl View for ChatSession {
    type V = SessionView;

    open spec fn view(&self) -> SessionView {
        SessionView {
            id: self.id,
            title: self.title,
            messages: self.messages@,
            model: self.model,
            created_at: self.created_at,
            updated_at: self.updated_at,
            tags: self.tags@,
            context: match self.context {
                Some(c) => Some(c@),
                None => None,
            },
        }
    }
}

fn copy_opt(s: &Option<String>) -> (r: Option<String>)
    ensures
        r == *s,
{
    match s {
        Some(t) => Some(t.clone()),
        None => None,
    }
}

impl ChatMessage {
    /// A copy of the message.
    pub fn duplicate(&self) -> (r: ChatMessage)
        ensures
            r == *self,
    {
        ChatMessage { role: self.role.clone(), content: self.content.clone(), timestamp: self.timestamp }
    }
}

impl CodeSnippet {
    /// A copy of the snippet.
    pub fn duplicate(&self) -> (r: CodeSnippet)
        ensures
            r == *self,
    {
        CodeSnippet {
            code: self.code.clone(),
            language: self.language.clone(),
            file_path: copy_opt(&self.file_path),
            start_line: self.start_line,
            end_line: self.end_line,
        }
    }
}

impl ChatContext {
    /// A copy of the context.
    pub fn duplicate(&self) -> (r: ChatContext)
        ensures
            r@ == self@,
    {
        let mut snippets: Vec<CodeSnippet> = Vec::new();
        let mut i: usize = 0;
        while i < self.code_snippets.len()
            invariant
                i <= self.code_snippets@.len(),
                snippets@ == self.code_snippets@.take(i as int),
            decreases self.code_snippets@.len() - i,
        {
            snippets.push(self.code_snippets[i].duplicate());
            assert(self.code_snippets@.take(i + 1) =~= self.code_snippets@.take(i as int).push(self.code_snippets@[i as int]));
            i += 1;
        }
        assert(self.code_snippets@.take(self.code_snippets@.len() as int) =~= self.code_snippets@);
        let mut extra: Vec<(String, String)> = Vec::new();
        let mut j: usize = 0;
        while j < self.additional_context.len()
            invariant
                j <= self.additional_context@.len(),
                extra@ == self.additional_context@.take(j as int),
            decreases self.additional_context@.len() - j,
        {
            extra.push((self.additional_context[j].0.clone(), self.additional_context[j].1.clone()));
            assert(self.additional_context@.take(j + 1) =~= self.additional_context@.take(j as int).push(
                self.additional_context@[j as int],
            ));
            j += 1;
        }
        assert(self.additional_context@.take(self.additional_context@.len() as int) =~= self.additional_context@);
        ChatContext {
            code_snippets: snippets,
            file_paths: copy_strings(&self.file_paths),
            repository_path: copy_opt(&self.repository_path),
            additional_context: extra,
        }
    }
}

impl ChatSession {
    /// A copy of the session.
    pub fn duplicate(&self) -> (r: ChatSession)
        ensures
            r@ == self@,
    {
        let mut messages: Vec<ChatMessage> = Vec::new();
        let mut i: usize = 0;
        while i < self.messages.len()
            invariant
                i <= self.messages@.len(),
                messages@ == self.messages@.take(i as int),
            decreases self.messages@.len() - i,
        {
            messages.push(self.messages[i].duplicate());
            assert(self.messages@.take(i + 1) =~= self.messages@.take(i as int).push(self.messages@[i as int]));
            i += 1;
        }
        assert(self.messages@.take(self.messages@.len() as int) =~= self.messages@);
        let context = match &self.context {
            Some(c) => Some(c.duplicate()),
            None => None,
        };
        ChatSession {
            id: self.id.clone(),
            title: self.title.clone(),
            messages,
            model: self.model.clone(),
            created_at: self.created_at,
            updated_at: self.updated_at,
            tags: copy_strings(&self.tags),
            context,
        }
    }
}

/// The views of a list of sessions.
pub open spec fn views(s: Seq<ChatSession>) -> Seq<SessionView> {
    s.map_values(|c: ChatSession| c@)
}

/// Most recently updated first: no session is updated before one after it.
pub open spec fn by_recency(s: Seq<SessionView>) -> bool {
    forall|a: int, b: int| 0 <= a < b < s.len() ==> !stamp_before(#[trigger] s[a].updated_at, #[trigger] s[b].updated_at)
}

/// Orders sessions most recently updated first (sessions updated at the
/// same moment in any order).
pub fn sort_by_recency(v: Vec<ChatSession>) -> (r: Vec<ChatSession>)
    ensures
        by_recency(views(r@)),
        views(r@).to_multiset() == views(v@).to_multiset(),
{
    broadcast use vstd::seq_lib::group_to_multiset_ensures;

    let ghost v0 = v@;
    let mut rest = v;
    let mut out: Vec<ChatSession> = Vec::new();
    proof {
        assert(views(out@) =~= Seq::<SessionView>::empty());
        vstd::seq_lib::lemma_multiset_commutative(views(out@), views(rest@));
        assert(views(out@) + views(rest@) =~= views(rest@));
    }
    while rest.len() > 0
        invariant
            by_recency(views(out@)),
            views(out@).to_multiset().add(views(rest@).to_multiset()) == views(v0).to_multiset(),
        decreases rest@.len(),
    {
        let ghost before_rest = rest@;
        let x = rest.pop().unwrap();
        proof {
            assert(before_rest == rest@.push(x));
            assert(views(before_rest) =~= views(rest@).push(x@));
            vstd::seq_lib::to_multiset_build(views(rest@), x@);
        }
        let mut p: usize = 0;
        while p < out.len() && !is_before(out[p].updated_at, x.updated_at)
            invariant
                p <= out@.len(),
                forall|q: int| 0 <= q < p ==> !stamp_before(#[trigger] out@[q].updated_at, x.updated_at),
            decreases out@.len() - p,
        {
            p += 1;
        }
        let ghost before_out = out@;
        let ghost xv = x@;
        out.insert(p, x);
        proof {
            assert(out@ == before_out.insert(p as int, out@[p as int]));
            assert(views(out@) =~= views(before_out).insert(p as int, xv));
            vstd::seq_lib::to_multiset_insert(views(before_out), p as int, xv);
            let s = views(out@);
            assert forall|a: int, b: int| 0 <= a < b < s.len() implies !stamp_before(#[trigger] s[a].updated_at, #[trigger] s[b].updated_at) by {
                let o = views(before_out);
                if a < p && b < p {
                    assert(s[a] == o[a] && s[b] == o[b]);
                } else if a < p && b == p {
                    assert(s[a] == o[a]);
                    assert(!stamp_before(before_out[a].updated_at, xv.updated_at));
                } else if a < p && b > p {
                    assert(s[a] == o[a] && s[b] == o[b - 1]);
                } else if a == p {
                    assert(s[b] == o[b - 1]);
                    if p < o.len() {
                        assert(stamp_before(before_out[p as int].updated_at, xv.updated_at));
                        if b - 1 > p {
                            assert(!stamp_before(o[p as int].updated_at, o[b - 1].updated_at));
                        }
                    }
                } else {
                    assert(s[a] == o[a - 1] && s[b] == o[b - 1]);
                }
            }
        }
    }
    proof {
        assert(views(rest@) =~= Seq::<SessionView>::empty());
    }
    out
}

/// The session map of the manager.
pub struct HistoryManager {
    pub sessions: StrMap<ChatSession>,
}

/// What the manager holds, by id.
pub open spec fn held(m: StrMap<ChatSession>) -> Map<Seq<char>, SessionView> {
    m@.map_values(|s: ChatSession| s@)
}

/// A session's title, one of its tags, or one of its messages contains
/// `q`, all compared in lowercase.
pub open spec fn session_matches(s: SessionView, q: Seq<char>) -> bool {
    ||| contains(lowercase(s.title@), q)
    ||| exists|i: int| 0 <= i < s.tags.len() && contains(lowercase(#[trigger] s.tags[i]@), q)
    ||| exists|i: int| 0 <= i < s.messages.len() && contains(lowercase(#[trigger] s.messages[i].content@), q)
}

/// A session carries the tag `tag`.
pub open spec fn has_tag(s: SessionView, tag: Seq<char>) -> bool {
    exists|i: int| 0 <= i < s.tags.len() && #[trigger] s.tags[i]@ == tag
}

/// The error for a session id that is not held.
pub open spec fn not_found(id: Seq<char>) -> Seq<char> {
    "Session not found: "@ + id
}

/// A fresh session id: `session_` and a random UUID.
pub open spec fn session_id(id: Seq<char>) -> bool {
    crate::text::starts_with(id, "session_"@)
}

fn placeholder_session() -> (r: ChatSession)
    ensures
        r.id@ == Seq::<char>::empty(),
        r.title@ == Seq::<char>::empty(),
        r.messages@ == Seq::<ChatMessage>::empty(),
        r.model@ == Seq::<char>::empty(),
        r.created_at == (Stamp { secs: 0, nanos: 0 }),
        r.updated_at == (Stamp { secs: 0, nanos: 0 }),
        r.tags@ == Seq::<String>::empty(),
        r.context is None,
{
    ChatSession {
        id: String::new(),
        title: String::new(),
        messages: Vec::new(),
        model: String::new(),
        created_at: Stamp { secs: 0, nanos: 0 },
        updated_at: Stamp { secs: 0, nanos: 0 },
        tags: Vec::new(),
        context: None,
    }
}

/// Whether `tags` holds `tag`.
fn holds_tag(tags: &Vec<String>, tag: &str) -> (r: bool)
    ensures
        r == exists|i: int| 0 <= i < tags@.len() && #[trigger] tags@[i]@ == tag@,
{
    let mut i: usize = 0;
    while i < tags.len()
        invariant
            i <= tags@.len(),
            forall|j: int| 0 <= j < i ==> tags@[j]@ != tag@,
        decreases tags@.len() - i,
    {
        if str_equals(tags[i].as_str(), tag) {
            return true;
        }
        i += 1;
    }
    false
}

/// The tags other than `tag`, in order.
pub open spec fn without_tag(tags: Seq<String>, tag: Seq<char>) -> Seq<String>
    decreases tags.len(),
{
    if tags.len() == 0 {
        seq![]
    } else {
        let p = without_tag(tags.drop_last(), tag);
        if tags.last()@ == tag {
            p
        } else {
            p.push(tags.last())
        }
    }
}

fn drop_tag(tags: &Vec<String>, tag: &str) -> (r: Vec<String>)
    ensures
        r@ == without_tag(tags@, tag@),
{
    let mut r: Vec<String> = Vec::new();
    let mut i: usize = 0;
    while i < tags.len()
        invariant
            i <= tags@.len(),
            r@ == without_tag(tags@.take(i as int), tag@),
        decreases tags@.len() - i,
    {
        assert(tags@.take(i + 1).drop_last() =~= tags@.take(i as int));
        if !str_equals(tags[i].as_str(), tag) {
            r.push(tags[i].clone());
        }
        i += 1;
    }
    assert(tags@.take(tags@.len() as int) =~= tags@);
    r
}

/// Whether a session matches a lowercase query.
fn matches_query(s: &ChatSession, q: &Vec<char>) -> (r: bool)
    ensures
        r == session_matches(s@, q@),
{
    let t = to_lowercase(s.title.as_str());
    let tc = chars_of(t.as_str());
    if contains_chars(tc.as_slice(), q.as_slice()) {
        return true;
    }
    let mut i: usize = 0;
    while i < s.tags.len()
        invariant
            i <= s.tags@.len(),
            !contains(lowercase(s.title@), q@),
            forall|j: int| 0 <= j < i ==> !contains(lowercase(#[trigger] s.tags@[j]@), q@),
        decreases s.tags@.len() - i,
    {
        let l = to_lowercase(s.tags[i].as_str());
        let lc = chars_of(l.as_str());
        if contains_chars(lc.as_slice(), q.as_slice()) {
            assert(contains(lowercase(s@.tags[i as int]@), q@));
            return true;
        }
        i += 1;
    }
    let mut k: usize = 0;
    while k < s.messages.len()
        invariant
            k <= s.messages@.len(),
            !contains(lowercase(s.title@), q@),
            forall|j: int| 0 <= j < s.tags@.len() ==> !contains(lowercase(#[trigger] s.tags@[j]@), q@),
            forall|j: int| 0 <= j < k ==> !contains(lowercase(#[trigger] s.messages@[j].content@), q@),
        decreases s.messages@.len() - k,
    {
        let l = to_lowercase(s.messages[k].content.as_str());
        let lc = chars_of(l.as_str());
        if contains_chars(lc.as_slice(), q.as_slice()) {
            assert(contains(lowercase(s@.messages[k as int].content@), q@));
            return true;
        }
        k += 1;
    }
    false
}

impl HistoryManager {
    /// The session map has distinct keys, each the id of its session.
    pub open spec fn wf(&self) -> bool {
        &&& self.sessions.wf()
        &&& forall|k: Seq<char>| #[trigger] self.sessions@.contains_key(k) ==> self.sessions@[k].id@ == k
    }

    /// What the manager holds, by id.
    pub open spec fn held(&self) -> Map<Seq<char>, SessionView> {
        held(self.sessions)
    }

    /// No sessions.
    pub fn new() -> (r: Self)
        ensures
            r.wf(),
            r.sessions@ == Map::<Seq<char>, ChatSession>::empty(),
    {
        HistoryManager { sessions: StrMap::new() }
    }

    /// The sessions read from storage, kept by id (a later one with the same
    /// id replaces an earlier one).
    pub fn from_sessions(loaded: Vec<ChatSession>) -> (r: Self)
        ensures
            r.wf(),
            forall|k: Seq<char>| #[trigger] r.sessions@.contains_key(k) <==> exists|i: int|
                0 <= i < loaded@.len() && loaded@[i].id@ == k,
    {
        let mut m = HistoryManager::new();
        let mut i: usize = 0;
        while i < loaded.len()
            invariant
                m.wf(),
                i <= loaded@.len(),
                forall|k: Seq<char>| #[trigger] m.sessions@.contains_key(k) <==> exists|j: int|
                    0 <= j < i && loaded@[j].id@ == k,
            decreases loaded@.len() - i,
        {
            let s = loaded[i].duplicate();
            let ghost sid = s.id;
            m.sessions.insert(s.id.clone(), s);
            proof {
                assert forall|k: Seq<char>| #[trigger] m.sessions@.contains_key(k) implies m.sessions@[k].id@ == k by {
                    if k != sid@ {
                    }
                }
                assert forall|k: Seq<char>| #[trigger] m.sessions@.contains_key(k) <==> exists|j: int|
                    0 <= j < i + 1 && loaded@[j].id@ == k by {
                    if k == sid@ {
                        assert(loaded@[i as int].id@ == k);
                    }
                    if exists|j: int| 0 <= j < i + 1 && loaded@[j].id@ == k {
                        let j = choose|j: int| 0 <= j < i + 1 && loaded@[j].id@ == k;
                        if j < i {
                        }
                    }
                }
            }
            i += 1;
        }
        m
    }
}

/// The sessions of `vals` that `session_matches` the query `q`, in order.
pub open spec fn matching(vals: Seq<SessionView>, q: Seq<char>) -> Seq<SessionView>
    decreases vals.len(),
{
    if vals.len() == 0 {
        seq![]
    } else {
        let p = matching(vals.drop_last(), q);
        if session_matches(vals.last(), q) {
            p.push(vals.last())
        } else {
            p
        }
    }
}

/// The sessions of `vals` that carry `tag`, in order.
pub open spec fn tagged(vals: Seq<SessionView>, tag: Seq<char>) -> Seq<SessionView>
    decreases vals.len(),
{
    if vals.len() == 0 {
        seq![]
    } else {
        let p = tagged(vals.drop_last(), tag);
        if has_tag(vals.last(), tag) {
            p.push(vals.last())
        } else {
            p
        }
    }
}

/// `after` is `before` with one more message, from `role` with `content`
/// at `now`, and updated at `now`.
pub open spec fn with_message(before: SessionView, after: SessionView, role: Seq<char>, content: Seq<char>, now: Stamp) -> bool {
    &&& after.messages.len() == before.messages.len() + 1
    &&& after.messages.take(before.messages.len() as int) == before.messages
    &&& after.messages.last().role@ == role
    &&& after.messages.last().content@ == content
    &&& after.messages.last().timestamp == now
    &&& after == SessionView { messages: after.messages, updated_at: now, ..before }
}

impl HistoryManager {
    /// Takes the session at position `p` out, leaving a blank in its place.
    fn take_session(&mut self, p: usize) -> (r: ChatSession)
        requires
            old(self).sessions.wf(),
            p < old(self).sessions.keys().len(),
        ensures
            final(self).sessions.wf(),
            r == old(self).sessions.values()[p as int],
            r == old(self).sessions@[old(self).sessions.keys()[p as int]],
            final(self).sessions.keys() == old(self).sessions.keys(),
            final(self).sessions@ == old(self).sessions@.insert(old(self).sessions.keys()[p as int], final(self).sessions@[old(self).sessions.keys()[p as int]]),
    {
        proof { self.sessions.lemma_view(); }
        self.sessions.replace_at(p, placeholder_session())
    }

    /// Puts a session back at position `p`.
    fn put_session(&mut self, p: usize, s: ChatSession)
        requires
            old(self).sessions.wf(),
            p < old(self).sessions.keys().len(),
        ensures
            final(self).sessions.wf(),
            final(self).sessions.keys() == old(self).sessions.keys(),
            final(self).sessions@ == old(self).sessions@.insert(old(self).sessions.keys()[p as int], s),
    {
        let _ = self.sessions.replace_at(p, s);
    }

    /// A copy of the session with that id, if held.
    pub fn get_session(&self, id: &str) -> (r: Option<ChatSession>)
        requires
            self.wf(),
        ensures
            match r {
                Some(s) => self.held().contains_key(id@) && s@ == self.held()[id@],
                None => !self.held().contains_key(id@),
            },
    {
        match self.sessions.get(id) {
            Some(s) => Some(s.duplicate()),
            None => None,
        }
    }

    /// Copies of all sessions, in store order.
    fn all_sessions(&self) -> (r: Vec<ChatSession>)
        requires
            self.wf(),
        ensures
            views(r@) == views(self.sessions.values()),
    {
        proof { self.sessions.lemma_view(); }
        let n = self.sessions.len();
        let mut v: Vec<ChatSession> = Vec::new();
        let mut i: usize = 0;
        while i < n
            invariant
                self.wf(),
                n == self.sessions.keys().len(),
                n == self.sessions.values().len(),
                i <= n,
                views(v@) == views(self.sessions.values().take(i as int)),
            decreases n - i,
        {
            let (_k, s) = self.sessions.entry_at(i);
            let c = s.duplicate();
            let ghost prev = v@;
            v.push(c);
            assert(views(v@) =~= views(prev).push(c@));
            assert(views(self.sessions.values().take(i + 1)) =~= views(self.sessions.values().take(i as int)).push(s@));
            i += 1;
        }
        assert(self.sessions.values().take(n as int) =~= self.sessions.values());
        v
    }

    /// All sessions, most recently updated first.
    pub fn list_sessions(&self) -> (r: Vec<ChatSession>)
        requires
            self.wf(),
        ensures
            by_recency(views(r@)),
            views(r@).to_multiset() == views(self.sessions.values()).to_multiset(),
    {
        sort_by_recency(self.all_sessions())
    }

    /// Starts a session with a fresh id, the given title and model, no
    /// messages or tags, created and updated at `now`.
    pub fn create_session(&mut self, title: &str, model: &str, now: Stamp) -> (r: ChatSession)
        requires
            old(self).wf(),
        ensures
            final(self).wf(),
            session_id(r.id@),
            r.title@ == title@,
            r.messages@ == Seq::<ChatMessage>::empty(),
            r.model@ == model@,
            r.created_at == now,
            r.updated_at == now,
            r.tags@ == Seq::<String>::empty(),
            r.context is None,
            final(self).held() == old(self).held().insert(r.id@, r@),
    {
        let u = new_uuid();
        let id = concat("session_", u.as_str());
        proof {
            reveal_strlit("session_");
            assert(id@.subrange(0, 8) =~= "session_"@);
        }
        let session = ChatSession {
            id,
            title: owned(title),
            messages: Vec::new(),
            model: owned(model),
            created_at: now,
            updated_at: now,
            tags: Vec::new(),
            context: None,
        };
        let copy = session.duplicate();
        let ghost sid = session.id;
        let ghost sv = session@;
        self.sessions.insert(session.id.clone(), session);
        proof {
            assert forall|k: Seq<char>| #[trigger] self.sessions@.contains_key(k) implies self.sessions@[k].id@ == k by {
                if k != sid@ {
                    assert(old(self).sessions@.contains_key(k));
                }
            }
            assert(self.held() =~= old(self).held().insert(sid@, sv));
        }
        copy
    }

    /// Stores a session under its id, updated at `now`.
    pub fn update_session(&mut self, session: ChatSession, now: Stamp)
        requires
            old(self).wf(),
        ensures
            final(self).wf(),
            final(self).held() == old(self).held().insert(session.id@, SessionView { updated_at: now, ..session@ }),
    {
        let mut s = session;
        s.updated_at = now;
        let ghost sid = s.id;
        let ghost sv = s@;
        self.sessions.insert(s.id.clone(), s);
        proof {
            assert forall|k: Seq<char>| #[trigger] self.sessions@.contains_key(k) implies self.sessions@[k].id@ == k by {
                if k != sid@ {
                    assert(old(self).sessions@.contains_key(k));
                }
            }
            assert(self.held() =~= old(self).held().insert(sid@, sv));
        }
    }

    /// Drops the session with that id; returns whether there was one (whose
    /// stored file is then to be removed).
    pub fn delete_session(&mut self, id: &str) -> (r: bool)
        requires
            old(self).wf(),
        ensures
            final(self).wf(),
            r == old(self).held().contains_key(id@),
            final(self).held() == old(self).held().remove(id@),
    {
        let removed = self.sessions.remove(id);
        proof {
            assert forall|k: Seq<char>| #[trigger] self.sessions@.contains_key(k) implies self.sessions@[k].id@ == k by {
                assert(old(self).sessions@.contains_key(k));
            }
            assert(self.held() =~= old(self).held().remove(id@));
        }
        removed.is_some()
    }

    /// Appends a message from `role` to a held session at `now` and returns
    /// a copy of the session; an unknown id is an error and changes nothing.
    pub fn add_message(&mut self, session_id: &str, role: &str, content: &str, now: Stamp) -> (r: Result<ChatSession, String>)
        requires
            old(self).wf(),
        ensures
            final(self).wf(),
            !old(self).held().contains_key(session_id@) ==> (r matches Err(e) && e@ == not_found(session_id@))
                && final(self).held() == old(self).held(),
            old(self).held().contains_key(session_id@) ==> (r matches Ok(s) && with_message(
                old(self).held()[session_id@],
                s@,
                role@,
                content@,
                now,
            ) && final(self).held() == old(self).held().insert(session_id@, s@)),
    {
        proof { self.sessions.lemma_view(); }
        match self.sessions.position(session_id) {
            None => Err(concat("Session not found: ", session_id)),
            Some(p) => {
                let mut s = self.take_session(p);
                assert(old(self).sessions@.contains_key(session_id@));
                assert(s.id@ == session_id@);
                let ghost before = s@;
                s.messages.push(ChatMessage { role: owned(role), content: owned(content), timestamp: now });
                s.updated_at = now;
                proof {
                    assert(s@.messages.take(before.messages.len() as int) =~= before.messages);
                    assert(s@ == SessionView { messages: s@.messages, updated_at: now, ..before });
                }
                let copy = s.duplicate();
                let ghost sv = s@;
                self.put_session(p, s);
                proof {
                    assert forall|k: Seq<char>| #[trigger] self.sessions@.contains_key(k) implies self.sessions@[k].id@ == k by {
                        if k != session_id@ {
                            assert(old(self).sessions@.contains_key(k));
                        }
                    }
                    assert(self.held() =~= old(self).held().insert(session_id@, sv));
                }
                Ok(copy)
            },
        }
    }

    /// Sets the context of a held session at `now` and returns a copy of the
    /// session; an unknown id is an error and changes nothing.
    pub fn update_context(&mut self, session_id: &str, context: ChatContext, now: Stamp) -> (r: Result<ChatSession, String>)
        requires
            old(self).wf(),
        ensures
            final(self).wf(),
            !old(self).held().contains_key(session_id@) ==> (r matches Err(e) && e@ == not_found(session_id@))
                && final(self).held() == old(self).held(),
            old(self).held().contains_key(session_id@) ==> (r matches Ok(s) && s@ == SessionView {
                context: Some(context@),
                updated_at: now,
                ..old(self).held()[session_id@]
            } && final(self).held() == old(self).held().insert(session_id@, s@)),
    {
        proof { self.sessions.lemma_view(); }
        match self.sessions.position(session_id) {
            None => Err(concat("Session not found: ", session_id)),
            Some(p) => {
                let mut s = self.take_session(p);
                assert(old(self).sessions@.contains_key(session_id@));
                assert(s.id@ == session_id@);
                s.context = Some(context);
                s.updated_at = now;
                let copy = s.duplicate();
                let ghost sv = s@;
                self.put_session(p, s);
                proof {
                    assert forall|k: Seq<char>| #[trigger] self.sessions@.contains_key(k) implies self.sessions@[k].id@ == k by {
                        if k != session_id@ {
                            assert(old(self).sessions@.contains_key(k));
                        }
                    }
                    assert(self.held() =~= old(self).held().insert(session_id@, sv));
                }
                Ok(copy)
            },
        }
    }

    /// Tags a held session (at `now`) unless it already has the tag, and
    /// returns a copy of the session; an unknown id is an error and changes
    /// nothing.
    pub fn add_tag(&mut self, session_id: &str, tag: &str, now: Stamp) -> (r: Result<ChatSession, String>)
        requires
            old(self).wf(),
        ensures
            final(self).wf(),
            !old(self).held().contains_key(session_id@) ==> (r matches Err(e) && e@ == not_found(session_id@))
                && final(self).held() == old(self).held(),
            old(self).held().contains_key(session_id@) && has_tag(old(self).held()[session_id@], tag@) ==> (r matches Ok(s)
                && s@ == old(self).held()[session_id@]) && final(self).held() == old(self).held(),
            old(self).held().contains_key(session_id@) && !has_tag(old(self).held()[session_id@], tag@) ==> (r matches Ok(s)
                && s@.tags.len() == old(self).held()[session_id@].tags.len() + 1
                && s@.tags.drop_last() == old(self).held()[session_id@].tags
                && s@.tags.last()@ == tag@
                && s@ == SessionView { tags: s@.tags, updated_at: now, ..old(self).held()[session_id@] }
                && final(self).held() == old(self).held().insert(session_id@, s@)),
    {
        proof { self.sessions.lemma_view(); }
        match self.sessions.position(session_id) {
            None => Err(concat("Session not found: ", session_id)),
            Some(p) => {
                let (_k, cur) = self.sessions.entry_at(p);
                if holds_tag(&cur.tags, tag) {
                    return Ok(cur.duplicate());
                }
                let mut s = self.take_session(p);
                assert(old(self).sessions@.contains_key(session_id@));
                assert(s.id@ == session_id@);
                let ghost before = s@;
                s.tags.push(owned(tag));
                s.updated_at = now;
                proof {
                    assert(s@.tags.drop_last() =~= before.tags);
                }
                let copy = s.duplicate();
                let ghost sv = s@;
                self.put_session(p, s);
                proof {
                    assert forall|k: Seq<char>| #[trigger] self.sessions@.contains_key(k) implies self.sessions@[k].id@ == k by {
                        if k != session_id@ {
                            assert(old(self).sessions@.contains_key(k));
                        }
                    }
                    assert(self.held() =~= old(self).held().insert(session_id@, sv));
                }
                Ok(copy)
            },
        }
    }

    /// Removes a tag from a held session at `now` and returns a copy of the
    /// session; an unknown id is an error and changes nothing.
    pub fn remove_tag(&mut self, session_id: &str, tag: &str, now: Stamp) -> (r: Result<ChatSession, String>)
        requires
            old(self).wf(),
        ensures
            final(self).wf(),
            !old(self).held().contains_key(session_id@) ==> (r matches Err(e) && e@ == not_found(session_id@))
                && final(self).held() == old(self).held(),
            old(self).held().contains_key(session_id@) ==> (r matches Ok(s) && s@ == SessionView {
                tags: without_tag(old(self).held()[session_id@].tags, tag@),
                updated_at: now,
                ..old(self).held()[session_id@]
            } && final(self).held() == old(self).held().insert(session_id@, s@)),
    {
        proof { self.sessions.lemma_view(); }
        match self.sessions.position(session_id) {
            None => Err(concat("Session not found: ", session_id)),
            Some(p) => {
                let mut s = self.take_session(p);
                assert(old(self).sessions@.contains_key(session_id@));
                assert(s.id@ == session_id@);
                let kept = drop_tag(&s.tags, tag);
                s.tags = kept;
                s.updated_at = now;
                let copy = s.duplicate();
                let ghost sv = s@;
                self.put_session(p, s);
                proof {
                    assert forall|k: Seq<char>| #[trigger] self.sessions@.contains_key(k) implies self.sessions@[k].id@ == k by {
                        if k != session_id@ {
                            assert(old(self).sessions@.contains_key(k));
                        }
                    }
                    assert(self.held() =~= old(self).held().insert(session_id@, sv));
                }
                Ok(copy)
            },
        }
    }

    /// The sessions whose title, a tag or a message contains the query (all
    /// in lowercase), most recently updated first.
    pub fn search_sessions(&self, query: &str) -> (r: Vec<ChatSession>)
        requires
            self.wf(),
        ensures
            by_recency(views(r@)),
            views(r@).to_multiset() == matching(views(self.sessions.values()), lowercase(query@)).to_multiset(),
    {
        let ql = to_lowercase(query);
        let q = chars_of(ql.as_str());
        proof { self.sessions.lemma_view(); }
        let ghost vals = views(self.sessions.values());
        let n = self.sessions.len();
        let mut v: Vec<ChatSession> = Vec::new();
        let mut i: usize = 0;
        while i < n
            invariant
                self.wf(),
                n == self.sessions.keys().len(),
                n == self.sessions.values().len(),
                vals == views(self.sessions.values()),
                q@ == lowercase(query@),
                i <= n,
                views(v@) == matching(vals.take(i as int), q@),
            decreases n - i,
        {
            let (_k, s) = self.sessions.entry_at(i);
            assert(vals.take(i + 1).drop_last() =~= vals.take(i as int));
            assert(vals.take(i + 1).last() == s@);
            if matches_query(s, &q) {
                let c = s.duplicate();
                let ghost prev = v@;
                v.push(c);
                assert(views(v@) =~= views(prev).push(c@));
            }
            i += 1;
        }
        assert(vals.take(n as int) =~= vals);
        sort_by_recency(v)
    }

    /// The sessions that carry the tag, most recently updated first.
    pub fn filter_sessions_by_tag(&self, tag: &str) -> (r: Vec<ChatSession>)
        requires
            self.wf(),
        ensures
            by_recency(views(r@)),
            views(r@).to_multiset() == tagged(views(self.sessions.values()), tag@).to_multiset(),
    {
        proof { self.sessions.lemma_view(); }
        let ghost vals = views(self.sessions.values());
        let n = self.sessions.len();
        let mut v: Vec<ChatSession> = Vec::new();
        let mut i: usize = 0;
        while i < n
            invariant
                self.wf(),
                n == self.sessions.keys().len(),
                n == self.sessions.values().len(),
                vals == views(self.sessions.values()),
                i <= n,
                views(v@) == tagged(vals.take(i as int), tag@),
            decreases n - i,
        {
            let (_k, s) = self.sessions.entry_at(i);
            assert(vals.take(i + 1).drop_last() =~= vals.take(i as int));
            assert(vals.take(i + 1).last() == s@);
            let ht = holds_tag(&s.tags, tag);
            assert(s@.tags == s.tags@);
            assert(ht == has_tag(s@, tag@));
            if ht {
                let c = s.duplicate();
                let ghost prev = v@;
                v.push(c);
                assert(views(v@) =~= views(prev).push(c@));
            }
            i += 1;
        }
        assert(vals.take(n as int) =~= vals);
        sort_by_recency(v)
    }
}

/// Removing a tag removes every occurrence of it and keeps the other tags.
pub proof fn law_removed_tag_is_gone(tags: Seq<String>, tag: Seq<char>)
    ensures
        forall|i: int| 0 <= i < without_tag(tags, tag).len() ==> #[trigger] without_tag(tags, tag)[i]@ != tag,
        forall|i: int| 0 <= i < tags.len() && tags[i]@ != tag ==> without_tag(tags, tag).contains(#[trigger] tags[i]),
    decreases tags.len(),
{
    if tags.len() > 0 {
        law_removed_tag_is_gone(tags.drop_last(), tag);
        let p = without_tag(tags.drop_last(), tag);
        assert forall|i: int| 0 <= i < tags.len() && tags[i]@ != tag implies without_tag(tags, tag).contains(#[trigger] tags[i]) by {
            if i < tags.len() - 1 {
                assert(tags.drop_last()[i] == tags[i]);
                assert(p.contains(tags[i]));
                if tags.last()@ != tag {
                    let j = choose|j: int| 0 <= j < p.len() && p[j] == tags[i];
                    assert(p.push(tags.last())[j] == tags[i]);
                }
            } else {
                assert(p.push(tags.last())[p.len() as int] == tags[i]);
            }
        }
    }
}

/// A session that was given a tag carries it, whether or not it had it.
pub proof fn law_added_tag_is_present(before: SessionView, after: SessionView, tag: Seq<char>)
    requires
        has_tag(before, tag) ==> after == before,
        !has_tag(before, tag) ==> after.tags.len() == before.tags.len() + 1 && after.tags.last()@ == tag,
    ensures
        has_tag(after, tag),
{
    if !has_tag(before, tag) {
        assert(after.tags[after.tags.len() - 1]@ == tag);
    }
}

/// Searching ignores case: a held session is found exactly when the
/// lowercase form of its title, of one of its tags or of one of its
/// messages contains the lowercase query.
pub proof fn law_search_ignores_case(vals: Seq<SessionView>, query: Seq<char>, s: SessionView)
    ensures
        matching(vals, lowercase(query)).contains(s) <==> vals.contains(s) && ({
            let q = lowercase(query);
            ||| contains(lowercase(s.title@), q)
            ||| exists|i: int| 0 <= i < s.tags.len() && contains(lowercase(#[trigger] s.tags[i]@), q)
            ||| exists|i: int| 0 <= i < s.messages.len() && contains(
                lowercase(#[trigger] s.messages[i].content@),
                q,
            )
        }),
    decreases vals.len(),
{
    let q = lowercase(query);
    if vals.len() > 0 {
        law_search_ignores_case(vals.drop_last(), query, s);
        let p = matching(vals.drop_last(), q);
        assert(vals =~= vals.drop_last().push(vals.last()));
        if matching(vals, q).contains(s) {
            if session_matches(vals.last(), q) {
                let k = choose|k: int| 0 <= k < p.push(vals.last()).len() && p.push(vals.last())[k] == s;
                if k < p.len() {
                    assert(p.contains(s));
                    let j = choose|j: int| 0 <= j < vals.drop_last().len() && vals.drop_last()[j] == s;
                    assert(vals[j] == s);
                } else {
                    assert(vals[vals.len() - 1] == s);
                }
            } else {
                let j = choose|j: int| 0 <= j < vals.drop_last().len() && vals.drop_last()[j] == s;
                assert(vals[j] == s);
            }
        }
        if vals.contains(s) && session_matches(s, q) {
            let j = choose|j: int| 0 <= j < vals.len() && vals[j] == s;
            if j == vals.len() - 1 {
                assert(matching(vals, q) == p.push(vals.last()));
                assert(matching(vals, q)[p.len() as int] == s);
            } else {
                assert(vals.drop_last()[j] == s);
                assert(p.contains(s));
                let k = choose|k: int| 0 <= k < p.len() && p[k] == s;
                if session_matches(vals.last(), q) {
                    assert(p.push(vals.last())[k] == s);
                }
            }
        }
    }
}

} // verus!
