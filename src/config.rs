//! The stored configuration: user accounts, the controller's endpoint and
//! token, and the local names given to members and rule sources given to
//! networks. Reading and writing the file is left to the caller.
use vstd::prelude::*;
use crate::permissions::User;
use crate::snapshot::{keys_ascending, lookup, put};
use crate::text::{lex_lt, lemma_lex_irreflexive, lemma_lex_transitive, lemma_lex_trichotomy, str_eq, str_less};

verus! {

/// One binding of a text map.
#[derive(Debug, Clone)]
pub struct TextEntry {
    pub key: String,
    pub value: String,
}

impl View for TextEntry {
    type V = (Seq<char>, Seq<char>);

    open spec fn view(&self) -> (Seq<char>, Seq<char>) {
        (self.key@, self.value@)
    }
}

/// A map from texts to texts, kept in ascending key order.
#[derive(Debug, Clone)]
pub struct TextMap {
    pub entries: Vec<TextEntry>,
}

/// The association list without the binding of `k`.
pub open spec fn without_key<V>(s: Seq<(Seq<char>, V)>, k: Seq<char>) -> Seq<(Seq<char>, V)>
    decreases s.len(),
{
    if s.len() == 0 {
        s
    } else if s.last().0 == k {
        without_key(s.drop_last(), k)
    } else {
        without_key(s.drop_last(), k).push(s.last())
    }
}

impl View for TextMap {
    type V = Seq<(Seq<char>, Seq<char>)>;

    open spec fn view(&self) -> Seq<(Seq<char>, Seq<char>)> {
        self.entries@.map_values(|e: TextEntry| e@)
    }
}

impl TextMap {
    pub open spec fn wf(&self) -> bool {
        keys_ascending(self@)
    }

    pub fn new() -> (r: TextMap)
        ensures
            r.wf(),
            r@.len() == 0,
    {
        TextMap { entries: Vec::new() }
    }

    pub fn len(&self) -> (r: usize)
        ensures
            r == self@.len(),
    {
        self.entries.len()
    }

    /// The text bound to `key`, if any.
    pub fn get(&self, key: &str) -> (r: Option<&String>)
        ensures
            match r {
                Some(v) => lookup(self@, key@) == Some(v@),
                None => lookup(self@, key@) is None,
            },
    {
        let ghost s = self@;
        let mut i: usize = 0;
        assert(s.skip(0) =~= s);
        while i < self.entries.len()
            invariant
                s == self@,
                i <= s.len(),
                lookup(s, key@) == lookup(s.skip(i as int), key@),
            decreases s.len() - i,
        {
            proof {
                assert(s.skip(i as int).drop_first() =~= s.skip(i + 1));
                assert(s.skip(i as int)[0] == s[i as int]);
                assert(s[i as int] == self.entries@[i as int]@);
            }
            if str_eq(self.entries[i].key.as_str(), key) {
                return Some(&self.entries[i].value);
            }
            i = i + 1;
        }
        None
    }

    /// Binds `key` to `value`, replacing an earlier binding of it.
    pub fn insert(&mut self, key: String, value: String)
        requires
            old(self).wf(),
        ensures
            final(self).wf(),
            final(self)@ == put(old(self)@, key@, value@),
    {
        let ghost s = self@;
        let ghost k = key@;
        let ghost v = value@;
        let n = self.entries.len();
        let mut i: usize = 0;
        loop
            invariant
                s == self@,
                k == key@,
                self.wf(),
                n == self.entries.len(),
                i <= n,
                forall|j: int| 0 <= j < i ==> lex_lt(#[trigger] s[j].0, k),
            ensures
                i < n ==> !lex_lt(s[i as int].0, k),
            decreases n - i,
        {
            if i == n {
                break;
            }
            assert(s[i as int].0 == self.entries@[i as int].key@);
            if !str_less(self.entries[i].key.as_str(), key.as_str()) {
                break;
            }
            i = i + 1;
        }
        proof {
            crate::snapshot::lemma_put_prefix(s, k, v, i as int);
        }
        let entry = TextEntry { key, value };
        if i < n && str_eq(self.entries[i].key.as_str(), entry.key.as_str()) {
            self.entries.set(i, entry);
            proof {
                assert(s.skip(i as int)[0] == s[i as int]);
                assert(s[i as int].0 == self.entries@[i as int].key@);
                assert(s.take(i as int) + s.skip(i as int).update(0, (k, v)) =~= s.update(
                    i as int,
                    (k, v),
                ));
                assert(self@ =~= s.update(i as int, (k, v)));
            }
        } else {
            proof {
                if i < n {
                    assert(s[i as int].0 == self.entries@[i as int].key@);
                    lemma_lex_trichotomy(s[i as int].0, k);
                    assert(lex_lt(k, s[i as int].0));
                } else {
                    assert(s.skip(i as int).len() == 0);
                }
                assert(s.take(i as int) + put(s.skip(i as int), k, v) =~= s.insert(i as int, (k, v)));
                assert forall|a: int, b: int|
                    0 <= a < b < s.len() + 1 implies lex_lt(
                    #[trigger] s.insert(i as int, (k, v))[a].0,
                    #[trigger] s.insert(i as int, (k, v))[b].0,
                ) by {
                    if b < i {
                    } else if b == i {
                    } else if a < i {
                        lemma_lex_transitive(s[a].0, k, s[i as int].0);
                        if b - 1 > i {
                            lemma_lex_transitive(s[a].0, s[i as int].0, s[b - 1].0);
                        }
                    } else if a == i {
                        if b - 1 > i {
                            lemma_lex_transitive(k, s[i as int].0, s[b - 1].0);
                        }
                    } else {
                    }
                }
            }
            self.entries.insert(i, entry);
            proof {
                assert(self@ =~= s.insert(i as int, (k, v)));
            }
        }
    }

    /// Removes the binding of `key`, if any.
    pub fn remove(&mut self, key: &str)
        requires
            old(self).wf(),
        ensures
            final(self).wf(),
            final(self)@ == without_key(old(self)@, key@),
    {
        let ghost s = self@;
        let mut rest: Vec<TextEntry> = Vec::new();
        std::mem::swap(&mut self.entries, &mut rest);
        let ghost orig = rest@;
        let ghost mut i: int = 0;
        proof {
            assert(orig.skip(0) =~= orig);
            assert(s.take(0) =~= Seq::<(Seq<char>, Seq<char>)>::empty());
            assert(without_key(s.take(0), key@) =~= self@);
        }
        while rest.len() > 0
            invariant
                s == orig.map_values(|e: TextEntry| e@),
                keys_ascending(s),
                0 <= i <= s.len(),
                rest@ == orig.skip(i),
                self@ == without_key(s.take(i), key@),
                forall|a: int, j: int|
                    0 <= a < self@.len() && i <= j < s.len() ==> lex_lt(#[trigger] self@[a].0, #[trigger] s[j].0),
                keys_ascending(self@),
            decreases rest.len(),
        {
            let e = rest.remove(0);
            proof {
                assert(orig[i] == e);
                assert(s[i] == e@);
                assert(s.take(i + 1).drop_last() =~= s.take(i));
                assert(s.take(i + 1).last() == e@);
                assert(rest@ =~= orig.skip(i + 1));
            }
            if !str_eq(e.key.as_str(), key) {
                let ghost before = self@;
                self.entries.push(e);
                proof {
                    assert(self@ =~= before.push(s[i]));
                    assert forall|a: int, j: int|
                        0 <= a < self@.len() && i + 1 <= j < s.len() implies lex_lt(#[trigger] self@[a].0, #[trigger] s[j].0) by {
                        if a < before.len() {
                            assert(self@[a] == before[a]);
                        }
                        assert(lex_lt(s[i].0, s[j].0));
                        if a < before.len() {
                            lemma_lex_transitive(before[a].0, s[i].0, s[j].0);
                        }
                    }
                    assert forall|a: int, b: int| 0 <= a < b < self@.len() implies lex_lt(#[trigger] self@[a].0, #[trigger] self@[b].0) by {
                        if b == before.len() {
                            assert(self@[a] == before[a]);
                            assert(self@[b] == s[i]);
                        } else {
                            assert(self@[a] == before[a]);
                            assert(self@[b] == before[b]);
                        }
                    }
                }
            }
            proof {
                i = i + 1;
            }
        }
        proof {
            assert(s.take(s.len() as int) =~= s);
        }
    }
}

/// The first user numbered by default.
pub fn default_next_user_id() -> (r: u64)
    ensures
        r == 1,
{
    1
}

/// Where the controller's API is reached unless configured otherwise.
pub fn default_zt_base_url() -> (r: String)
    ensures
        r@ == "http://localhost:9993"@,
{
    String::from_str("http://localhost:9993")
}

/// The stored configuration. `username` and `password_hash` are the single
/// account of older files, moved into `users` when the file is read.
#[derive(Debug, Clone)]
pub struct Config {
    pub username: Option<String>,
    pub password_hash: Option<String>,
    pub users: Vec<User>,
    pub next_user_id: u64,
    pub zt_token: String,
    pub zt_base_url: String,
    pub member_names: TextMap,
    pub rules_source: TextMap,
}

/// The largest user id, if there are users.
pub open spec fn max_user_id(users: Seq<User>) -> Option<u64>
    decreases users.len(),
{
    if users.len() == 0 {
        None
    } else {
        match max_user_id(users.drop_last()) {
            Some(m) if m >= users.last().id => Some(m),
            _ => Some(users.last().id),
        }
    }
}

/// A user found by `pick`: the first one, or none when no user is picked.
pub open spec fn found(users: Seq<User>, pick: spec_fn(User) -> bool, r: Option<User>) -> bool {
    match r {
        Some(u) => exists|i: int|
            0 <= i < users.len() && users[i] == u && pick(u) && forall|j: int| 0 <= j < i ==> !pick(users[j]),
        None => forall|i: int| 0 <= i < users.len() ==> !pick(#[trigger] users[i]),
    }
}

/// Whether reading the file turns a lone legacy account into a user.
pub open spec fn adopts_legacy(c: Config) -> bool {
    c.users@.len() == 0 && c.username is Some && c.password_hash is Some
}

/// The next user id once the legacy account, if any, is numbered.
pub open spec fn id_floor(c: Config) -> int {
    if adopts_legacy(c) {
        c.next_user_id + 1
    } else {
        c.next_user_id as int
    }
}

/// The next user id: past the largest id in use, and at least `floor`.
pub open spec fn next_id_after(max: Option<u64>, floor: int) -> int {
    match max {
        Some(m) if m >= floor => m + 1,
        _ => floor,
    }
}

impl Config {
    pub open spec fn wf(&self) -> bool {
        self.member_names.wf() && self.rules_source.wf()
    }

    /// The first user with this name.
    pub fn find_user_by_username(&self, username: &str) -> (r: Option<&User>)
        ensures
            found(self.users@, |u: User| u.username@ == username@, match r { Some(u) => Some(*u), None => None }),
    {
        let mut i: usize = 0;
        while i < self.users.len()
            invariant
                i <= self.users@.len(),
                forall|j: int| 0 <= j < i ==> self.users@[j].username@ != username@,
            decreases self.users@.len() - i,
        {
            if str_eq(self.users[i].username.as_str(), username) {
                return Some(&self.users[i]);
            }
            i = i + 1;
        }
        None
    }

    /// The first user with this id.
    pub fn find_user_by_id(&self, id: u64) -> (r: Option<&User>)
        ensures
            found(self.users@, |u: User| u.id == id, match r { Some(u) => Some(*u), None => None }),
    {
        let mut i: usize = 0;
        while i < self.users.len()
            invariant
                i <= self.users@.len(),
                forall|j: int| 0 <= j < i ==> self.users@[j].id != id,
            decreases self.users@.len() - i,
        {
            if self.users[i].id == id {
                return Some(&self.users[i]);
            }
            i = i + 1;
        }
        None
    }

    /// Adds a user under the next free id and returns it.
    pub fn add_user(&mut self, username: String, password_hash: String, is_admin: bool, created_at: i64) -> (r: &User)
        requires
            old(self).next_user_id < u64::MAX,
        ensures
            final(self).next_user_id == old(self).next_user_id + 1,
            final(self).users@.len() == old(self).users@.len() + 1,
            final(self).users@.drop_last() == old(self).users@,
            final(self).users@.last().id == old(self).next_user_id,
            final(self).users@.last().username == username,
            final(self).users@.last().password_hash == password_hash,
            final(self).users@.last().is_admin == is_admin,
            final(self).users@.last().network_permissions@.len() == 0,
            final(self).users@.last().created_at == created_at,
            *r == final(self).users@.last(),
            final(self).member_names == old(self).member_names,
            final(self).rules_source == old(self).rules_source,
    {
        let user = User::new(self.next_user_id, username, password_hash, is_admin, created_at);
        self.next_user_id = self.next_user_id + 1;
        self.users.push(user);
        proof {
            assert(self.users@.drop_last() =~= old(self).users@);
        }
        let last = self.users.len() - 1;
        &self.users[last]
    }

    /// Removes every user with this id; whether one was removed.
    pub fn remove_user(&mut self, id: u64) -> (r: bool)
        ensures
            final(self).users@ == old(self).users@.filter(|u: User| u.id != id),
            r == (final(self).users@.len() < old(self).users@.len()),
            final(self).next_user_id == old(self).next_user_id,
            final(self).member_names == old(self).member_names,
            final(self).rules_source == old(self).rules_source,
    {
        let ghost orig = self.users@;
        let ghost before = *self;
        let ghost p = |u: User| u.id != id;
        let mut rest: Vec<User> = Vec::new();
        std::mem::swap(&mut self.users, &mut rest);
        let n0 = rest.len();
        let ghost mut i: int = 0;
        proof {
            assert(orig.skip(0) =~= orig);
            assert(orig.take(0).filter(p) =~= Seq::<User>::empty());
        }
        while rest.len() > 0
            invariant
                0 <= i <= orig.len(),
                p == (|u: User| u.id != id),
                self.next_user_id == before.next_user_id,
                self.member_names == before.member_names,
                self.rules_source == before.rules_source,
                rest@ == orig.skip(i),
                self.users@ == orig.take(i).filter(p),
            decreases rest.len(),
        {
            let u = rest.remove(0);
            proof {
                assert(orig[i] == u);
                assert(orig.take(i + 1) =~= orig.take(i).push(u));
                orig.take(i).lemma_filter_push(u, p);
                assert(rest@ =~= orig.skip(i + 1));
            }
            if u.id != id {
                self.users.push(u);
            }
            proof {
                i = i + 1;
            }
        }
        proof {
            assert(orig.take(orig.len() as int) =~= orig);
            orig.lemma_filter_len(p);
        }
        self.users.len() < n0
    }

    /// Whether some user is an administrator.
    pub fn has_admin(&self) -> (r: bool)
        ensures
            r == (exists|i: int| 0 <= i < self.users@.len() && self.users@[i].is_admin),
    {
        let mut i: usize = 0;
        while i < self.users.len()
            invariant
                i <= self.users@.len(),
                forall|j: int| 0 <= j < i ==> !self.users@[j].is_admin,
            decreases self.users@.len() - i,
        {
            if self.users[i].is_admin {
                return true;
            }
            i = i + 1;
        }
        false
    }

    /// The largest user id, if there are users.
    pub fn max_user_id(&self) -> (r: Option<u64>)
        ensures
            r == max_user_id(self.users@),
    {
        let mut best: Option<u64> = None;
        let mut i: usize = 0;
        while i < self.users.len()
            invariant
                i <= self.users@.len(),
                best == max_user_id(self.users@.take(i as int)),
            decreases self.users@.len() - i,
        {
            proof {
                assert(self.users@.take(i + 1).drop_last() =~= self.users@.take(i as int));
            }
            let id = self.users[i].id;
            best = match best {
                Some(m) if m >= id => Some(m),
                _ => Some(id),
            };
            i = i + 1;
        }
        proof {
            assert(self.users@.take(self.users@.len() as int) =~= self.users@);
        }
        best
    }

    /// Brings a configuration read from an older file up to date: a lone
    /// legacy account becomes an administrator (created at `now`), and the
    /// next user id is moved past every id in use. Whether anything changed,
    /// so that the caller saves the file again.
    pub fn migrate(&mut self, now: i64) -> (changed: bool)
        requires
            old(self).next_user_id < u64::MAX,
            max_user_id(old(self).users@) is None || max_user_id(old(self).users@).unwrap() < u64::MAX,
        ensures
            final(self).member_names == old(self).member_names,
            final(self).rules_source == old(self).rules_source,
            adopts_legacy(*old(self)) ==> final(self).users@.len() == 1
                && final(self).users@[0].is_admin && final(self).users@[0].id == old(self).next_user_id
                && final(self).users@[0].username == old(self).username.unwrap()
                && final(self).users@[0].password_hash == old(self).password_hash.unwrap()
                && final(self).users@[0].created_at == now
                && final(self).users@[0].network_permissions@.len() == 0
                && final(self).username is None && final(self).password_hash is None,
            !adopts_legacy(*old(self)) ==> final(self).users == old(self).users
                && final(self).username == old(self).username
                && final(self).password_hash == old(self).password_hash,
            final(self).next_user_id == next_id_after(max_user_id(final(self).users@), id_floor(*old(self))),
            changed == (adopts_legacy(*old(self)) || id_floor(*old(self)) != next_id_after(
                max_user_id(final(self).users@),
                id_floor(*old(self)),
            )),
    {
        let mut changed = false;
        if self.users.len() == 0 && self.username.is_some() && self.password_hash.is_some() {
            let mut name: Option<String> = None;
            let mut hash: Option<String> = None;
            std::mem::swap(&mut self.username, &mut name);
            std::mem::swap(&mut self.password_hash, &mut hash);
            match (name, hash) {
                (Some(n), Some(h)) => {
                    let admin = User::new_admin(self.next_user_id, n, h, now);
                    self.next_user_id = self.next_user_id + 1;
                    self.users.push(admin);
                    changed = true;
                    proof {
                        assert(self.users@.len() == 1);
                        assert(self.users@.drop_last() =~= Seq::<User>::empty());
                        assert(max_user_id(self.users@.drop_last()) is None);
                        assert(self.users@.last() == self.users@[0]);
                        assert(max_user_id(self.users@) == Some(self.users@[0].id));
                    }
                },
                _ => {},
            }
        }
        match self.max_user_id() {
            Some(m) => {
                if self.next_user_id <= m {
                    self.next_user_id = m + 1;
                    changed = true;
                }
            },
            None => {},
        }
        changed
    }

    /// Records the display name of a member; an empty name removes it.
    pub fn set_member_name(&mut self, address: &str, name: &str)
        requires
            old(self).wf(),
        ensures
            final(self).wf(),
            final(self).member_names@ == (if name@.len() == 0 {
                without_key(old(self).member_names@, address@)
            } else {
                put(old(self).member_names@, address@, name@)
            }),
            final(self).rules_source == old(self).rules_source,
            final(self).users == old(self).users,
    {
        if name.is_empty() {
            self.member_names.remove(address);
        } else {
            self.member_names.insert(address.to_owned(), name.to_owned());
        }
    }

    /// Records the rule source of a network; an empty source removes it.
    pub fn set_rules_source(&mut self, nwid: &str, source: &str)
        requires
            old(self).wf(),
        ensures
            final(self).wf(),
            final(self).rules_source@ == (if source@.len() == 0 {
                without_key(old(self).rules_source@, nwid@)
            } else {
                put(old(self).rules_source@, nwid@, source@)
            }),
            final(self).member_names == old(self).member_names,
            final(self).users == old(self).users,
    {
        if source.is_empty() {
            self.rules_source.remove(nwid);
        } else {
            self.rules_source.insert(nwid.to_owned(), source.to_owned());
        }
    }
}

} // verus!
