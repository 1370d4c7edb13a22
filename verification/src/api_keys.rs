//! The API key store and the text format of the key file.
//!
//! A key file holds one entry per line: the API key, a space, and the name of
//! the user the key belongs to. Lines end with `\n` or `\r\n`; the last line
//! may lack its line ending. Loading a file inserts one entry per line, in
//! order, so a key listed twice belongs to the user on its last line.

use vstd::prelude::*;
use vstd::hash_map::StringHashMap;
use crate::config::ServerConfig;

verus! {

broadcast use vstd::hash_map::group_hash_map_axioms;

/// Why a request was refused by the API key check.
#[derive(Debug, Clone, Copy, PartialEq, Eq, Structural)]
pub enum ApiKeyError {
    /// The request carries no `X-API-KEY` header.
    MissingApiKey,
    /// The request carries no `X-USER-NAME` header.
    MissingUser,
    /// The key is not in the store.
    InvalidApiKey,
    /// The key is in the store but belongs to another user.
    InvalidUser,
}

// ---------------------------------------------------------------------------
// The key-file format
// ---------------------------------------------------------------------------

/// A line with a trailing carriage return removed.
pub open spec fn strip_cr(line: Seq<char>) -> Seq<char> {
    if line.len() > 0 && line.last() == '\r' {
        line.drop_last()
    } else {
        line
    }
}

/// The lines of `s`, given that a line started at `start` and that no line
/// ending occurs in `s[start..pos]`. Each `\n` ends a line (a `\r` just before
/// it is dropped); what follows the last `\n` is a line only if it is not
/// empty.
pub open spec fn lines_from(s: Seq<char>, start: int, pos: int) -> Seq<Seq<char>>
    decreases s.len() - pos,
{
    if pos >= s.len() {
        if start < s.len() {
            seq![s.subrange(start, s.len() as int)]
        } else {
            seq![]
        }
    } else if s[pos] == '\n' {
        seq![strip_cr(s.subrange(start, pos))] + lines_from(s, pos + 1, pos + 1)
    } else {
        lines_from(s, start, pos + 1)
    }
}

/// The lines of a key file.
pub open spec fn text_lines(s: Seq<char>) -> Seq<Seq<char>> {
    lines_from(s, 0, 0)
}

/// The first position at or after `from` that holds a space, or the length
/// of `s` if there is none.
pub open spec fn field_end(s: Seq<char>, from: int) -> int
    decreases s.len() - from,
{
    if from >= s.len() {
        s.len() as int
    } else if s[from] == ' ' {
        from
    } else {
        field_end(s, from + 1)
    }
}

/// The key of a line: everything before its first space.
pub open spec fn line_key(line: Seq<char>) -> Seq<char> {
    line.subrange(0, field_end(line, 0))
}

/// The user of a line: what lies between its first and second space (or the
/// end of the line); empty when the line has no space.
pub open spec fn line_user(line: Seq<char>) -> Seq<char> {
    let p = field_end(line, 0);
    if p < line.len() {
        line.subrange(p + 1, field_end(line, p + 1))
    } else {
        Seq::empty()
    }
}

/// The map `m` after inserting the entry of each line in order.
pub open spec fn apply_lines(m: Map<Seq<char>, Seq<char>>, lines: Seq<Seq<char>>) -> Map<
    Seq<char>,
    Seq<char>,
>
    decreases lines.len(),
{
    if lines.len() == 0 {
        m
    } else {
        apply_lines(m, lines.drop_last()).insert(line_key(lines.last()), line_user(lines.last()))
    }
}

/// The map `m` after loading the key file `text` into it.
pub open spec fn load_text(m: Map<Seq<char>, Seq<char>>, text: Seq<char>) -> Map<
    Seq<char>,
    Seq<char>,
> {
    apply_lines(m, text_lines(text))
}

/// The outcome of checking `key` and `user` against the key map `m`.
pub open spec fn check_key(m: Map<Seq<char>, Seq<char>>, key: Seq<char>, user: Seq<char>) -> Result<
    (),
    ApiKeyError,
> {
    if !m.contains_key(key) {
        Err(ApiKeyError::InvalidApiKey)
    } else if m[key] != user {
        Err(ApiKeyError::InvalidUser)
    } else {
        Ok(())
    }
}

/// Inserting the entry of a first line and then the rest is loading them all.
pub proof fn lemma_apply_cons(
    m: Map<Seq<char>, Seq<char>>,
    first: Seq<char>,
    rest: Seq<Seq<char>>,
)
    ensures
        apply_lines(m, seq![first] + rest) == apply_lines(
            m.insert(line_key(first), line_user(first)),
            rest,
        ),
    decreases rest.len(),
{
    let all = seq![first] + rest;
    let m1 = m.insert(line_key(first), line_user(first));
    if rest.len() == 0 {
        assert(all.drop_last() =~= Seq::<Seq<char>>::empty());
        assert(all.last() == first);
        assert(apply_lines(m, all.drop_last()) == m);
        assert(apply_lines(m1, rest) == m1);
    } else {
        lemma_apply_cons(m, first, rest.drop_last());
        assert(all.drop_last() =~= seq![first] + rest.drop_last());
        assert(all.last() == rest.last());
        assert(apply_lines(m1, rest) == apply_lines(m1, rest.drop_last()).insert(
            line_key(rest.last()),
            line_user(rest.last()),
        ));
    }
}

/// The index of the last line whose key is `k`, or -1 if no line has it.
pub open spec fn last_line_with_key(lines: Seq<Seq<char>>, k: Seq<char>) -> int
    decreases lines.len(),
{
    if lines.len() == 0 {
        -1
    } else if line_key(lines.last()) == k {
        lines.len() - 1
    } else {
        last_line_with_key(lines.drop_last(), k)
    }
}

/// After loading `lines` into `m`, a key belongs to the user on the last
/// line that lists it; a key that no line lists keeps the entry it had in
/// `m`, or stays absent.
pub proof fn law_last_line_wins(m: Map<Seq<char>, Seq<char>>, lines: Seq<Seq<char>>, k: Seq<char>)
    ensures
        ({
            let r = apply_lines(m, lines);
            let j = last_line_with_key(lines, k);
            &&& -1 <= j < lines.len()
            &&& j >= 0 ==> {
                &&& line_key(lines[j]) == k
                &&& r.contains_key(k)
                &&& r[k] == line_user(lines[j])
                &&& forall|i: int| j < i < lines.len() ==> line_key(#[trigger] lines[i]) != k
            }
            &&& j < 0 ==> {
                &&& forall|i: int| 0 <= i < lines.len() ==> line_key(#[trigger] lines[i]) != k
                &&& r.contains_key(k) == m.contains_key(k)
                &&& m.contains_key(k) ==> r[k] == m[k]
            }
        }),
    decreases lines.len(),
{
    if lines.len() > 0 {
        let init = lines.drop_last();
        law_last_line_wins(m, init, k);
        if line_key(lines.last()) != k {
            assert forall|i: int| last_line_with_key(init, k) < i < lines.len() implies line_key(
                #[trigger] lines[i],
            ) != k by {
                if i < lines.len() - 1 {
                    assert(lines[i] == init[i]);
                }
            }
        }
    }
}

/// Loading the same lines a second time changes nothing: reloading an
/// unchanged key file leaves the store as it was.
pub proof fn law_reload_idempotent(m: Map<Seq<char>, Seq<char>>, lines: Seq<Seq<char>>)
    ensures
        apply_lines(apply_lines(m, lines), lines) == apply_lines(m, lines),
{
    let once = apply_lines(m, lines);
    let twice = apply_lines(once, lines);
    assert forall|k: Seq<char>| #[trigger] twice.contains_key(k) == once.contains_key(k) && (
    once.contains_key(k) ==> twice[k] == once[k]) by {
        law_last_line_wins(m, lines, k);
        law_last_line_wins(once, lines, k);
    }
    assert(twice =~= once);
}

/// Loading a key file never removes a key: every key of the store before a
/// reload is still there after it.
pub proof fn law_load_keeps_keys(m: Map<Seq<char>, Seq<char>>, text: Seq<char>, k: Seq<char>)
    requires
        m.contains_key(k),
    ensures
        load_text(m, text).contains_key(k),
{
    law_last_line_wins(m, text_lines(text), k);
}

/// The key check after loading a key file: a key listed in the file is
/// accepted exactly with the user on the last line that lists it; any other
/// key is checked as before the load.
pub proof fn law_check_after_load(
    m: Map<Seq<char>, Seq<char>>,
    text: Seq<char>,
    key: Seq<char>,
    user: Seq<char>,
)
    ensures
        ({
            let lines = text_lines(text);
            let j = last_line_with_key(lines, key);
            check_key(load_text(m, text), key, user) == if j >= 0 {
                if line_user(lines[j]) == user {
                    Ok(())
                } else {
                    Err(ApiKeyError::InvalidUser)
                }
            } else {
                check_key(m, key, user)
            }
        }),
{
    law_last_line_wins(m, text_lines(text), key);
}

/// `field_end` finds the first space: from `j`, a run of non-spaces that
/// ends at `e` (a space or the end of `s`) ends the field at `e`.
proof fn lemma_field_end_at(s: Seq<char>, j: int, e: int)
    requires
        0 <= j <= e <= s.len(),
        forall|i: int| j <= i < e ==> s[i] != ' ',
        e == s.len() || s[e] == ' ',
    ensures
        field_end(s, j) == e,
    decreases e - j,
{
    if j < e {
        lemma_field_end_at(s, j + 1, e);
    }
}

/// A run without line endings from `pos` up to a `\n` at `e` is one line.
proof fn lemma_line_until(s: Seq<char>, start: int, pos: int, e: int)
    requires
        0 <= start <= pos <= e < s.len(),
        s[e] == '\n',
        forall|i: int| pos <= i < e ==> s[i] != '\n',
    ensures
        lines_from(s, start, pos) == seq![strip_cr(s.subrange(start, e))] + lines_from(
            s,
            e + 1,
            e + 1,
        ),
    decreases e - pos,
{
    if pos < e {
        lemma_line_until(s, start, pos + 1, e);
    }
}

/// A key-file line is split at spaces only: for a key `k` and a user `u`
/// that hold no space and no line-ending character, the line `k u` has key
/// `k` and user `u`, and loading the file holding that single line maps `k`
/// to `u` (and so accepts `k` for `u`), keeping every other entry.
pub proof fn law_key_line(m: Map<Seq<char>, Seq<char>>, k: Seq<char>, u: Seq<char>)
    requires
        forall|i: int| 0 <= i < k.len() ==> #[trigger] k[i] != ' ' && k[i] != '\n' && k[i] != '\r',
        forall|i: int| 0 <= i < u.len() ==> #[trigger] u[i] != ' ' && u[i] != '\n' && u[i] != '\r',
    ensures
        line_key(k + " "@ + u) == k,
        line_user(k + " "@ + u) == u,
        load_text(m, k + " "@ + u + "\n"@) == m.insert(k, u),
        check_key(load_text(m, k + " "@ + u + "\n"@), k, u) == Ok::<(), ApiKeyError>(()),
{
    reveal_strlit(" ");
    reveal_strlit("\n");
    let line = k + " "@ + u;
    let n = k.len() as int;
    assert(line.len() == n + 1 + u.len());
    assert(line[n] == ' ');
    assert forall|i: int| 0 <= i < n implies line[i] != ' ' by {
        assert(line[i] == k[i]);
    }
    lemma_field_end_at(line, 0, n);
    assert forall|i: int| n + 1 <= i < line.len() implies line[i] != ' ' by {
        assert(line[i] == u[i - n - 1]);
    }
    lemma_field_end_at(line, n + 1, line.len() as int);
    assert(line.subrange(0, n) =~= k);
    assert(line.subrange(n + 1, line.len() as int) =~= u);
    let text = line + "\n"@;
    let e = line.len() as int;
    assert(text[e] == '\n');
    assert forall|i: int| 0 <= i < e implies text[i] != '\n' by {
        assert(text[i] == line[i]);
        if i < n {
            assert(line[i] == k[i]);
        } else if i > n {
            assert(line[i] == u[i - n - 1]);
        }
    }
    lemma_line_until(text, 0, 0, e);
    assert(text.subrange(0, e) =~= line);
    assert(line.last() != '\r') by {
        if u.len() > 0 {
            assert(line.last() == u[u.len() - 1]);
        }
    }
    assert(strip_cr(line) == line);
    assert(lines_from(text, e + 1, e + 1) =~= Seq::<Seq<char>>::empty());
    assert(text_lines(text) =~= seq![line]);
    lemma_apply_cons(m, line, Seq::empty());
    assert(seq![line] + Seq::<Seq<char>>::empty() =~= seq![line]);
    assert(apply_lines(m.insert(k, u), Seq::<Seq<char>>::empty()) == m.insert(k, u));
}

/// Scanning the tail `b` of `a + b` gives the lines of `b` on their own.
proof fn lemma_lines_shift(a: Seq<char>, b: Seq<char>, start: int, pos: int)
    requires
        0 <= start <= pos <= b.len(),
    ensures
        lines_from(a + b, a.len() + start, a.len() + pos) == lines_from(b, start, pos),
    decreases b.len() - pos,
{
    let ab = a + b;
    let n = a.len() as int;
    if pos < b.len() {
        assert(ab[n + pos] == b[pos]);
        if b[pos] == '\n' {
            lemma_lines_shift(a, b, pos + 1, pos + 1);
            assert(ab.subrange(n + start, n + pos) =~= b.subrange(start, pos));
        } else {
            lemma_lines_shift(a, b, start, pos + 1);
        }
    } else {
        assert(ab.subrange(n + start, ab.len() as int) =~= b.subrange(start, b.len() as int));
    }
}

/// When `a` is empty or ends with a newline, the lines of `a + b` are those of
/// `a` followed by those of `b`.
proof fn lemma_lines_concat(a: Seq<char>, b: Seq<char>, start: int, pos: int)
    requires
        a.len() == 0 || a.last() == '\n',
        0 <= start <= pos <= a.len(),
        pos == a.len() ==> start == a.len(),
    ensures
        lines_from(a + b, start, pos) == lines_from(a, start, pos) + text_lines(b),
    decreases a.len() - pos,
{
    let ab = a + b;
    let n = a.len() as int;
    if pos == n {
        lemma_lines_shift(a, b, 0, 0);
        assert(lines_from(a, start, pos) =~= Seq::<Seq<char>>::empty());
        assert(lines_from(a, start, pos) + text_lines(b) =~= text_lines(b));
    } else {
        assert(ab[pos] == a[pos]);
        if a[pos] == '\n' {
            lemma_lines_concat(a, b, pos + 1, pos + 1);
            assert(ab.subrange(start, pos) =~= a.subrange(start, pos));
            let first = seq![strip_cr(a.subrange(start, pos))];
            assert(first + (lines_from(a, pos + 1, pos + 1) + text_lines(b)) =~= (first
                + lines_from(a, pos + 1, pos + 1)) + text_lines(b));
        } else {
            lemma_lines_concat(a, b, start, pos + 1);
        }
    }
}

/// Loading `l1 + l2` is loading `l1` and then `l2`.
proof fn lemma_apply_append(m: Map<Seq<char>, Seq<char>>, l1: Seq<Seq<char>>, l2: Seq<Seq<char>>)
    ensures
        apply_lines(m, l1 + l2) == apply_lines(apply_lines(m, l1), l2),
    decreases l2.len(),
{
    if l2.len() == 0 {
        assert(l1 + l2 =~= l1);
    } else {
        lemma_apply_append(m, l1, l2.drop_last());
        assert((l1 + l2).drop_last() =~= l1 + l2.drop_last());
        assert((l1 + l2).last() == l2.last());
    }
}

/// Appending lines to a key file (one that is empty or ends with a newline)
/// and loading it is loading the file as it was and then the added lines.
pub proof fn law_load_appended_lines(m: Map<Seq<char>, Seq<char>>, a: Seq<char>, b: Seq<char>)
    requires
        a.len() == 0 || a.last() == '\n',
    ensures
        load_text(m, a + b) == load_text(load_text(m, a), b),
{
    lemma_lines_concat(a, b, 0, 0);
    lemma_apply_append(m, text_lines(a), text_lines(b));
}

// ---------------------------------------------------------------------------
// The store
// ---------------------------------------------------------------------------

/// The API keys that the server accepts, each with the user it belongs to.
pub struct ApiKeyStore {
    keys: StringHashMap<String>,
}

impl View for ApiKeyStore {
    type V = Map<Seq<char>, Seq<char>>;

    /// Each key with the name of its user.
    closed spec fn view(&self) -> Map<Seq<char>, Seq<char>> {
        self.keys@.map_values(|v: String| v@)
    }
}

impl ApiKeyStore {
    /// An empty store.
    pub fn new() -> (store: ApiKeyStore)
        ensures
            store@ == Map::<Seq<char>, Seq<char>>::empty(),
    {
        let store = ApiKeyStore { keys: StringHashMap::new() };
        assert(store@ =~= Map::<Seq<char>, Seq<char>>::empty());
        store
    }

    /// The number of keys in the store.
    pub fn len(&self) -> (n: usize)
        ensures
            n == self@.len(),
    {
        assert(self@.dom() =~= self.keys@.dom());
        self.keys.len()
    }

    /// Checks that `key` is in the store and belongs to `user`.
    pub fn is_valid(&self, key: &str, user: &str) -> (r: Result<(), ApiKeyError>)
        ensures
            r == check_key(self@, key@, user@),
    {
        if !self.keys.contains_key(key) {
            return Err(ApiKeyError::InvalidApiKey);
        }
        match self.keys.get(key) {
            None => Err(ApiKeyError::InvalidUser),
            Some(owner) => {
                let user_string = String::from_str(user);
                if *owner == user_string {
                    Ok(())
                } else {
                    Err(ApiKeyError::InvalidUser)
                }
            },
        }
    }

    /// Inserts the entry of the line `text[start..end]`; `chars` holds the
    /// characters of `text`.
    fn insert_line(&mut self, text: &str, chars: &Vec<char>, start: usize, end: usize)
        requires
            chars@ == text@,
            start <= end <= chars@.len(),
        ensures
            ({
                let line = text@.subrange(start as int, end as int);
                final(self)@ == old(self)@.insert(line_key(line), line_user(line))
            }),
    {
        let ghost line = text@.subrange(start as int, end as int);
        let mut p = start;
        while p < end && chars[p] != ' '
            invariant
                start <= p <= end <= chars@.len(),
                chars@ == text@,
                line == text@.subrange(start as int, end as int),
                field_end(line, (p - start) as int) == field_end(line, 0),
            decreases end - p,
        {
            assert(line[(p - start) as int] == chars@[p as int]);
            p = p + 1;
        }
        assert(field_end(line, (p - start) as int) == (p - start) as int);
        let key = String::from_str(text.substring_char(start, p));
        let user = if p < end {
            let mut q = p + 1;
            while q < end && chars[q] != ' '
                invariant
                    start <= p < q <= end <= chars@.len(),
                    chars@ == text@,
                    line == text@.subrange(start as int, end as int),
                    field_end(line, (q - start) as int) == field_end(line, (p + 1 - start) as int),
                decreases end - q,
            {
                assert(line[(q - start) as int] == chars@[q as int]);
                q = q + 1;
            }
            assert(field_end(line, (q - start) as int) == (q - start) as int);
            String::from_str(text.substring_char(p + 1, q))
        } else {
            String::new()
        };
        assert(key@ =~= line_key(line));
        assert(user@ =~= line_user(line));
        self.keys.insert(key, user);
        assert(self@ =~= old(self)@.insert(line_key(line), line_user(line)));
    }

    /// Loads the entries of the key file `text` into the store: one entry
    /// per line, a later line overriding an earlier one with the same key.
    /// Keys already in the store and not listed in `text` stay.
    pub fn load_keys(&mut self, text: &str)
        ensures
            final(self)@ == load_text(old(self)@, text@),
    {
        let mut chars: Vec<char> = Vec::new();
        for c in it: text.chars()
            invariant
                chars@.len() == it.index(),
                forall|j: int| 0 <= j < chars@.len() ==> chars@[j] == it.seq()[j],
        {
            chars.push(c);
        }
        assert(chars@ =~= text@);
        let ghost s = text@;
        let ghost target = load_text(self@, s);
        let n = chars.len();
        let mut start: usize = 0;
        let mut i: usize = 0;
        while i < n
            invariant
                start <= i <= n,
                n == chars@.len(),
                chars@ == s,
                s == text@,
                target == apply_lines(self@, lines_from(s, start as int, i as int)),
            decreases n - i,
        {
            if chars[i] == '\n' {
                let end = if i > start && chars[i - 1] == '\r' {
                    i - 1
                } else {
                    i
                };
                proof {
                    let line = s.subrange(start as int, end as int);
                    assert(strip_cr(s.subrange(start as int, i as int)) =~= line);
                    lemma_apply_cons(self@, line, lines_from(s, i + 1, i + 1));
                }
                self.insert_line(text, &chars, start, end);
                start = i + 1;
            }
            i = i + 1;
        }
        if start < n {
            proof {
                let line = s.subrange(start as int, n as int);
                lemma_apply_cons(self@, line, Seq::empty());
                assert(seq![line] + Seq::<Seq<char>>::empty() =~= seq![line]);
            }
            self.insert_line(text, &chars, start, n);
        }
    }

    /// A store holding the entries of the key file `text`.
    pub fn from_file(text: &str) -> (store: ApiKeyStore)
        ensures
            store@ == load_text(Map::empty(), text@),
    {
        let mut store = ApiKeyStore::new();
        store.load_keys(text);
        store
    }
}

// ---------------------------------------------------------------------------
// Authenticated users
// ---------------------------------------------------------------------------

/// A request's user whose API key passed the check.
pub struct ValidUser {
    key: String,
    user_name: String,
}

impl ValidUser {
    /// The API key the user presented.
    pub closed spec fn key_view(&self) -> Seq<char> {
        self.key@
    }

    /// The user's name.
    pub closed spec fn user_name_view(&self) -> Seq<char> {
        self.user_name@
    }

    /// Checks the `X-API-KEY` and `X-USER-NAME` headers of a request against
    /// `store`: a missing key header is reported first, then a missing user
    /// header, then the outcome of the store's check; the user is accepted
    /// only when the store maps the key to that user.
    pub fn authenticate(store: &ApiKeyStore, api_key: Option<&str>, api_user: Option<&str>) -> (r:
        Result<ValidUser, ApiKeyError>)
        ensures
            match api_key {
                None => r == Err::<ValidUser, ApiKeyError>(ApiKeyError::MissingApiKey),
                Some(k) => match api_user {
                    None => r == Err::<ValidUser, ApiKeyError>(ApiKeyError::MissingUser),
                    Some(u) => match check_key(store@, k@, u@) {
                        Err(e) => r == Err::<ValidUser, ApiKeyError>(e),
                        Ok(_) => r matches Ok(v) && v.key_view() == k@ && v.user_name_view()
                            == u@,
                    },
                },
            },
    {
        let key = match api_key {
            None => return Err(ApiKeyError::MissingApiKey),
            Some(k) => k,
        };
        let user = match api_user {
            None => return Err(ApiKeyError::MissingUser),
            Some(u) => u,
        };
        match store.is_valid(key, user) {
            Err(e) => Err(e),
            Ok(()) => Ok(ValidUser { key: String::from_str(key), user_name: String::from_str(user) }),
        }
    }

    /// The API key the user presented.
    pub fn key(&self) -> (key: &str)
        ensures
            key@ == self.key_view(),
    {
        self.key.as_str()
    }

    /// The user's name.
    pub fn user_name(&self) -> (name: &str)
        ensures
            name@ == self.user_name_view(),
    {
        self.user_name.as_str()
    }

    /// The directory holding the user's passwords: the user's name under the
    /// configured data directory.
    pub fn user_dir_path(&self, config: &ServerConfig) -> (dir: String)
        ensures
            dir@ == config.data_dir_view() + "/"@ + self.user_name_view(),
    {
        let mut dir = config.data_dir();
        dir.append("/");
        dir.append(self.user_name.as_str());
        dir
    }
}

} // verus!
