//! Per-session environment variables, kept in insertion order.

use vstd::prelude::*;
use crate::text::same_text;

verus! {

/// Position of the first entry for `k`, or -1.
pub open spec fn key_pos(e: Seq<(Seq<char>, Seq<char>)>, k: Seq<char>) -> int
    decreases e.len(),
{
    if e.len() == 0 {
        -1
    } else if e[0].0 == k {
        0
    } else {
        let p = key_pos(e.drop_first(), k);
        if p < 0 {
            -1
        } else {
            p + 1
        }
    }
}

/// The value of the first entry for `k`.
pub open spec fn env_lookup(e: Seq<(Seq<char>, Seq<char>)>, k: Seq<char>) -> Option<Seq<char>> {
    let p = key_pos(e, k);
    if p < 0 {
        None
    } else {
        Some(e[p].1)
    }
}

/// `e` with `k` bound to `v`: the entry for `k` replaced in place, or a new
/// one at the end.
pub open spec fn env_insert(e: Seq<(Seq<char>, Seq<char>)>, k: Seq<char>, v: Seq<char>) -> Seq<
    (Seq<char>, Seq<char>),
> {
    let p = key_pos(e, k);
    if p < 0 {
        e.push((k, v))
    } else {
        e.update(p, (k, v))
    }
}

pub proof fn lemma_key_pos(e: Seq<(Seq<char>, Seq<char>)>, k: Seq<char>)
    ensures
        -1 <= key_pos(e, k) < e.len(),
        key_pos(e, k) < 0 ==> forall|j: int| 0 <= j < e.len() ==> e[j].0 != k,
        key_pos(e, k) >= 0 ==> e[key_pos(e, k)].0 == k && forall|j: int|
            0 <= j < key_pos(e, k) ==> e[j].0 != k,
    decreases e.len(),
{
    if e.len() > 0 && e[0].0 != k {
        let t = e.drop_first();
        lemma_key_pos(t, k);
        assert forall|j: int| 0 < j < e.len() implies e[j] == t[j - 1] by {}
    }
}

/// Environment variables of one shell session.
pub struct EnvVars {
    vars: Vec<(String, String)>,
}

impl View for EnvVars {
    type V = Seq<(Seq<char>, Seq<char>)>;

    closed spec fn view(&self) -> Seq<(Seq<char>, Seq<char>)> {
        self.vars@.map_values(|p: (String, String)| (p.0@, p.1@))
    }
}

impl EnvVars {
    /// An empty environment.
    pub fn new() -> (r: Self)
        ensures
            r@ == Seq::<(Seq<char>, Seq<char>)>::empty(),
    {
        let r = EnvVars { vars: Vec::new() };
        assert(r@ =~= Seq::<(Seq<char>, Seq<char>)>::empty());
        r
    }

    /// The index of the first entry for `key`.
    fn position(&self, key: &str) -> (r: Option<usize>)
        ensures
            match r {
                Some(i) => i < self@.len() && key_pos(self@, key@) == i,
                None => key_pos(self@, key@) < 0,
            },
    {
        proof {
            lemma_key_pos(self@, key@);
        }
        let mut i: usize = 0;
        while i < self.vars.len()
            invariant
                i <= self.vars.len(),
                self@.len() == self.vars.len(),
                forall|j: int| 0 <= j < i ==> self@[j].0 != key@,
            decreases self.vars.len() - i,
        {
            if same_text(self.vars[i].0.as_str(), key) {
                assert(self@[i as int].0 == key@);
                proof {
                    lemma_key_pos(self@, key@);
                }
                return Some(i);
            }
            i = i + 1;
        }
        None
    }

    /// Binds `key` to `value`, in place if `key` is already bound.
    pub fn insert(&mut self, key: String, value: String)
        ensures
            final(self)@ == env_insert(old(self)@, key@, value@),
    {
        let ghost k = key@;
        let ghost v = value@;
        proof {
            lemma_key_pos(old(self)@, k);
        }
        match self.position(key.as_str()) {
            Some(i) => {
                self.vars[i] = (key, value);
                assert(self@ =~= old(self)@.update(i as int, (k, v)));
            },
            None => {
                self.vars.push((key, value));
                assert(self@ =~= old(self)@.push((k, v)));
            },
        }
    }

    /// The value bound to `key`.
    pub fn get(&self, key: &str) -> (r: Option<&str>)
        ensures
            match r {
                Some(v) => env_lookup(self@, key@) == Some(v@),
                None => env_lookup(self@, key@) is None,
            },
    {
        proof {
            lemma_key_pos(self@, key@);
        }
        match self.position(key) {
            Some(i) => Some(self.vars[i].1.as_str()),
            None => None,
        }
    }

    /// The number of bindings.
    pub fn len(&self) -> (r: usize)
        ensures
            r == self@.len(),
    {
        self.vars.len()
    }

    /// The name and value of the binding at `i`, in insertion order.
    pub fn entry(&self, i: usize) -> (r: (&str, &str))
        requires
            i < self@.len(),
        ensures
            r.0@ == self@[i as int].0,
            r.1@ == self@[i as int].1,
    {
        (self.vars[i].0.as_str(), self.vars[i].1.as_str())
    }
}

} // verus!
