//! A snapshot of environment variables.
use crate::text::same_text;
use vstd::prelude::*;

verus! {

/// Variables and their values. A name that occurs twice has its first value.
#[derive(Debug)]
pub struct EnvVars {
    pub vars: Vec<(String, String)>,
}

/// Value of `name` among the first `n` variables.
pub open spec fn lookup(vars: Seq<(String, String)>, name: Seq<char>, n: nat) -> Option<Seq<char>>
    decreases n,
{
    if n == 0 {
        None
    } else {
        match lookup(vars, name, (n - 1) as nat) {
            Some(v) => Some(v),
            None => if vars[n - 1].0@ == name {
                Some(vars[n - 1].1@)
            } else {
                None
            },
        }
    }
}

impl EnvVars {
    /// Value of `name`, where it is set.
    pub open spec fn value(&self, name: Seq<char>) -> Option<Seq<char>> {
        lookup(self.vars@, name, self.vars@.len())
    }

    /// Whether `name` is set to exactly `text`.
    pub open spec fn says(&self, name: Seq<char>, text: Seq<char>) -> bool {
        self.value(name) == Some(text)
    }

    /// Value of `name`, where it is set.
    pub fn get(&self, name: &str) -> (r: Option<&str>)
        ensures
            match self.value(name@) {
                Some(v) => r matches Some(s) && s@ == v,
                None => r is None,
            },
    {
        let mut i: usize = 0;
        while i < self.vars.len()
            invariant
                i <= self.vars@.len(),
                lookup(self.vars@, name@, i as nat) is None,
            decreases self.vars@.len() - i,
        {
            if same_text(self.vars[i].0.as_str(), name) {
                proof {
                    lemma_found(self.vars@, name@, (i + 1) as nat, self.vars@.len());
                }
                return Some(self.vars[i].1.as_str());
            }
            i = i + 1;
        }
        None
    }

    /// Whether `name` is set to exactly `text`.
    pub fn is(&self, name: &str, text: &str) -> (r: bool)
        ensures
            r == self.says(name@, text@),
    {
        match self.get(name) {
            Some(s) => same_text(s, text),
            None => false,
        }
    }

    /// Whether `name` is set at all.
    pub fn has(&self, name: &str) -> (r: bool)
        ensures
            r == (self.value(name@) is Some),
    {
        self.get(name).is_some()
    }
}

proof fn lemma_found(vars: Seq<(String, String)>, name: Seq<char>, n: nat, m: nat)
    requires
        n <= m,
        lookup(vars, name, n) is Some,
    ensures
        lookup(vars, name, m) == lookup(vars, name, n),
    decreases m,
{
    if n < m {
        lemma_found(vars, name, n, (m - 1) as nat);
    }
}

} // verus!
