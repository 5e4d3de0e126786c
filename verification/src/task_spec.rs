//! The model of a task as a project's spec file declares it.

use vstd::prelude::*;

verus! {

/// The type of an environment variable a task declares.
#[derive(Clone, Copy, Debug, PartialEq, Eq, Structural)]
pub enum VarType {
    /// Free text.
    String,
    /// One of a fixed list of options.
    Choice,
    /// A value that must never be written anywhere (audit trail included).
    Secret,
}

/// Whether a variable of type `t` holds sensitive data.
pub open spec fn var_type_is_sensitive(t: VarType) -> bool {
    t == VarType::Secret
}

impl VarType {
    /// Whether variables of this type hold sensitive data.
    pub fn is_sensitive(&self) -> (b: bool)
        ensures
            b == var_type_is_sensitive(*self),
    {
        match self {
            VarType::Secret => true,
            _ => false,
        }
    }
}

/// The declaration of one environment variable of a task.
#[derive(Debug)]
pub struct EnvVarSpec {
    pub var_type: VarType,
    pub default: Option<String>,
    pub options: Vec<String>,
    pub required: bool,
}

/// What to do when a command fails.
#[derive(Debug)]
pub struct FailurePolicy {
    pub continue_on_failure: bool,
    pub cmds: Vec<String>,
}

/// A condition that must hold before a task runs: commands that must succeed.
#[derive(Debug)]
pub struct ConditionSpec {
    pub cmds: Vec<String>,
    pub on_failure: Option<FailurePolicy>,
}

/// How risky a task is for an agent to run.
#[derive(Clone, Copy, Debug, PartialEq, Eq, Structural)]
pub enum RiskLevel {
    Low,
    Medium,
    High,
    Critical,
}

/// How a task is exposed to agents.
#[derive(Debug)]
pub struct AgentSpec {
    pub enabled: bool,
    pub risk_level: RiskLevel,
    pub confirmation: Option<String>,
    pub requires_approval: bool,
}

/// Task-level audit configuration: what the audit trail records of a task,
/// whoever calls it.
#[derive(Debug)]
pub struct AuditSpec {
    /// Names of the task's env vars whose values are included in audit
    /// events when overridden. Validation rejects a var typed `secret` here.
    pub log_env: Vec<String>,
}

impl Default for AuditSpec {
    fn default() -> (s: AuditSpec)
        ensures
            s.log_env@.len() == 0,
    {
        AuditSpec { log_env: Vec::new() }
    }
}

/// The position of the last entry named `k` in `es`, or -1 when there is none.
pub open spec fn env_index_of(es: Seq<(Seq<char>, EnvVarSpec)>, k: Seq<char>) -> int
    decreases es.len(),
{
    if es.len() == 0 {
        -1
    } else if es.last().0 == k {
        es.len() - 1
    } else {
        env_index_of(es.drop_last(), k)
    }
}

/// The declaration that `es` holds under the name `k`, if any.
pub open spec fn env_lookup(es: Seq<(Seq<char>, EnvVarSpec)>, k: Seq<char>) -> Option<EnvVarSpec> {
    let i = env_index_of(es, k);
    if i < 0 {
        None
    } else {
        Some(es[i].1)
    }
}

/// No name occurs twice in `es`.
pub open spec fn env_names_distinct(es: Seq<(Seq<char>, EnvVarSpec)>) -> bool {
    forall|i: int, j: int| 0 <= i < j < es.len() ==> es[i].0 != es[j].0
}

/// `es` after declaring `k` as `v`: an existing entry of that name is
/// replaced in place, otherwise the entry is added at the end.
pub open spec fn env_inserted(es: Seq<(Seq<char>, EnvVarSpec)>, k: Seq<char>, v: EnvVarSpec) -> Seq<
    (Seq<char>, EnvVarSpec),
> {
    let i = env_index_of(es, k);
    if i < 0 {
        es.push((k, v))
    } else {
        es.update(i, (k, v))
    }
}

/// `env_index_of` is the last position that holds the name, or -1.
pub proof fn lemma_env_index_of(es: Seq<(Seq<char>, EnvVarSpec)>, k: Seq<char>)
    ensures
        -1 <= env_index_of(es, k) < es.len(),
        env_index_of(es, k) >= 0 ==> es[env_index_of(es, k)].0 == k,
        forall|j: int| env_index_of(es, k) < j < es.len() ==> es[j].0 != k,
    decreases es.len(),
{
    if es.len() > 0 && es.last().0 != k {
        let d = es.drop_last();
        lemma_env_index_of(d, k);
        assert forall|j: int| env_index_of(es, k) < j < es.len() implies es[j].0 != k by {
            if j < es.len() - 1 {
                assert(es[j] == d[j]);
            }
        }
    }
}

/// Any position that holds the name with no later one holding it is the
/// position `env_index_of` gives.
proof fn lemma_env_index_of_unique(es: Seq<(Seq<char>, EnvVarSpec)>, k: Seq<char>, i: int)
    requires
        -1 <= i < es.len(),
        i >= 0 ==> es[i].0 == k,
        forall|j: int| i < j < es.len() ==> es[j].0 != k,
    ensures
        env_index_of(es, k) == i,
{
    lemma_env_index_of(es, k);
    let x = env_index_of(es, k);
    if x < i {
        assert(es[i].0 == k);
    } else if x > i {
        assert(es[x].0 == k);
    }
}

/// Reading after a declaration: the name declared now gives the new
/// declaration, and every other name gives what it gave before.
pub proof fn lemma_env_insert_lookup(
    es: Seq<(Seq<char>, EnvVarSpec)>,
    k: Seq<char>,
    v: EnvVarSpec,
    q: Seq<char>,
)
    ensures
        env_lookup(env_inserted(es, k, v), q) == if q == k {
            Some(v)
        } else {
            env_lookup(es, q)
        },
{
    lemma_env_index_of(es, k);
    lemma_env_index_of(es, q);
    let i = env_index_of(es, k);
    let n = env_inserted(es, k, v);
    if i < 0 {
        assert(n.drop_last() =~= es);
    } else {
        assert forall|j: int| 0 <= j < n.len() implies (#[trigger] n[j]).0 == es[j].0 by {}
        if q == k {
            lemma_env_index_of_unique(n, k, i);
        } else {
            lemma_env_index_of_unique(n, q, env_index_of(es, q));
        }
    }
}

/// A declaration keeps every name occurring once.
pub proof fn lemma_env_insert_distinct(es: Seq<(Seq<char>, EnvVarSpec)>, k: Seq<char>, v: EnvVarSpec)
    requires
        env_names_distinct(es),
    ensures
        env_names_distinct(env_inserted(es, k, v)),
{
    lemma_env_index_of(es, k);
}

/// The environment variables a task declares, by name. Each name occurs
/// once; entries keep the order in which their names were first declared.
pub struct EnvMap {
    entries: Vec<(String, EnvVarSpec)>,
}

impl View for EnvMap {
    type V = Seq<(Seq<char>, EnvVarSpec)>;

    closed spec fn view(&self) -> Seq<(Seq<char>, EnvVarSpec)> {
        self.entries@.map_values(|e: (String, EnvVarSpec)| (e.0@, e.1))
    }
}

impl EnvMap {
    #[verifier::type_invariant]
    closed spec fn names_distinct(self) -> bool {
        env_names_distinct(self@)
    }

    /// The empty map.
    pub fn new() -> (m: EnvMap)
        ensures
            m@ == Seq::<(Seq<char>, EnvVarSpec)>::empty(),
    {
        let m = EnvMap { entries: Vec::new() };
        assert(m@ =~= Seq::<(Seq<char>, EnvVarSpec)>::empty());
        m
    }

    /// The number of declared variables (each name occurs once).
    pub fn len(&self) -> (n: usize)
        ensures
            n == self@.len(),
            env_names_distinct(self@),
    {
        proof {
            use_type_invariant(self);
        }
        self.entries.len()
    }

    /// The `i`-th declaration and its name.
    pub fn entry(&self, i: usize) -> (e: (&String, &EnvVarSpec))
        requires
            i < self@.len(),
        ensures
            e.0@ == self@[i as int].0,
            *e.1 == self@[i as int].1,
    {
        let e = &self.entries[i];
        (&e.0, &e.1)
    }

    /// The position of the entry named `key`.
    fn find(&self, key: &String) -> (r: Option<usize>)
        ensures
            match r {
                Some(i) => i < self@.len() && i as int == env_index_of(self@, key@),
                None => env_index_of(self@, key@) == -1,
            },
    {
        assert(self@.len() == self.entries@.len());
        let mut i = self.entries.len();
        while i > 0
            invariant
                i <= self@.len(),
                self@.len() == self.entries@.len(),
                forall|j: int| i <= j < self@.len() ==> self@[j].0 != key@,
            decreases i,
        {
            let name: &String = &self.entries[i - 1].0;
            if *name == *key {
                proof {
                    lemma_env_index_of_unique(self@, key@, i - 1);
                }
                return Some(i - 1);
            }
            i = i - 1;
        }
        proof {
            lemma_env_index_of_unique(self@, key@, -1);
        }
        None
    }

    /// The declaration named `key`, if any.
    pub fn get(&self, key: &String) -> (r: Option<&EnvVarSpec>)
        ensures
            match r {
                Some(v) => env_lookup(self@, key@) == Some(*v),
                None => env_lookup(self@, key@) is None,
            },
    {
        match self.find(key) {
            Some(i) => Some(&self.entries[i].1),
            None => None,
        }
    }

    /// Declares `key` as `value`, replacing and returning an earlier
    /// declaration of the same name.
    pub fn insert(&mut self, key: String, value: EnvVarSpec) -> (prev: Option<EnvVarSpec>)
        ensures
            prev == env_lookup(old(self)@, key@),
            final(self)@ == env_inserted(old(self)@, key@, value),
    {
        proof {
            use_type_invariant(&*self);
        }
        let ghost k = key@;
        let ghost before = self@;
        let found = self.find(&key);
        let mut entries: Vec<(String, EnvVarSpec)> = Vec::new();
        std::mem::swap(&mut entries, &mut self.entries);
        let prev = match found {
            Some(i) => {
                let mut entry = (key, value);
                entries.set_and_swap(i, &mut entry);
                Some(entry.1)
            },
            None => {
                proof {
                    lemma_env_index_of(before, k);
                }
                entries.push((key, value));
                None
            },
        };
        let ghost after = entries@.map_values(|e: (String, EnvVarSpec)| (e.0@, e.1));
        assert(after =~= env_inserted(before, k, value));
        proof {
            lemma_env_index_of(before, k);
        }
        self.entries = entries;
        prev
    }
}

/// A task: the smallest unit of execution, a list of commands run in order
/// with their environment, working directory and preconditions.
pub struct TaskSpec {
    pub description: Option<String>,
    pub cmds: Vec<String>,
    pub workdir: Option<String>,
    pub env: EnvMap,
    pub env_files: Vec<String>,
    pub preconditions: Vec<ConditionSpec>,
    pub on_failure: Option<FailurePolicy>,
    pub docs: Option<String>,
    pub agent: Option<AgentSpec>,
    pub audit: Option<AuditSpec>,
}

} // verus!
