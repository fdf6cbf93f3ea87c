//! The registry of tools: which tools are available under which names,
//! which came from extensions and which names were removed for good. The
//! library keeps these, and the order of the guards that run before each
//! call, and decides every registration; the tool and guard objects
//! themselves live with the caller, keyed by the names and handles the
//! registry keeps.

use vstd::prelude::*;

use crate::ls::{chars_lt, lemma_seq_lt_irrefl, lemma_seq_lt_total, lemma_seq_lt_trans, seq_lt};
use crate::subagent_registry::{is_listed, listed};
use crate::text::{chars_of, owned, push_str, trim, trim_bounds};
use crate::tool::{DomainError, Sandbox, ToolDefinition};

verus! {

/// A definition as plain values: name, description, schema.
pub open spec fn def_view(d: ToolDefinition) -> (Seq<char>, Seq<char>, Seq<char>) {
    (d.name@, d.description@, d.parameters_schema@)
}

/// The names of a list of definitions are in strictly increasing order.
pub open spec fn sorted_names(v: Seq<ToolDefinition>) -> bool {
    forall|a: int, b: int| 0 <= a < b < v.len() ==> seq_lt(v[a].name@, v[b].name@)
}

/// The tools of a list of definitions: name to description and schema.
pub open spec fn defs_map(v: Seq<ToolDefinition>) -> Map<Seq<char>, (Seq<char>, Seq<char>)>
    decreases v.len(),
{
    if v.len() == 0 {
        Map::empty()
    } else {
        defs_map(v.drop_last()).insert(
            v.last().name@,
            (v.last().description@, v.last().parameters_schema@),
        )
    }
}

proof fn lemma_sorted_unique(v: Seq<ToolDefinition>, a: int, b: int)
    requires
        sorted_names(v),
        0 <= a < v.len(),
        0 <= b < v.len(),
        a != b,
    ensures
        v[a].name@ != v[b].name@,
{
    if a < b {
        lemma_seq_lt_irrefl(v[a].name@);
    } else {
        lemma_seq_lt_irrefl(v[b].name@);
    }
}

proof fn lemma_defs_map(v: Seq<ToolDefinition>)
    requires
        sorted_names(v),
    ensures
        forall|k: Seq<char>| #[trigger] defs_map(v).contains_key(k) <==> exists|i: int|
            0 <= i < v.len() && v[i].name@ == k,
        forall|i: int|
            0 <= i < v.len() ==> #[trigger] defs_map(v)[v[i].name@] == (
                v[i].description@,
                v[i].parameters_schema@,
            ),
    decreases v.len(),
{
    if v.len() > 0 {
        let w = v.drop_last();
        let last = v.last();
        assert(sorted_names(w));
        lemma_defs_map(w);
        assert(defs_map(v) == defs_map(w).insert(
            last.name@,
            (last.description@, last.parameters_schema@),
        ));
        assert forall|k: Seq<char>| #[trigger] defs_map(v).contains_key(k) <==> exists|i: int|
            0 <= i < v.len() && v[i].name@ == k by {
            if defs_map(v).contains_key(k) {
                if k != last.name@ {
                    assert(defs_map(w).contains_key(k));
                    let i = choose|i: int| 0 <= i < w.len() && w[i].name@ == k;
                    assert(v[i].name@ == k);
                } else {
                    assert(v[v.len() - 1].name@ == k);
                }
            }
            if exists|i: int| 0 <= i < v.len() && v[i].name@ == k {
                let i = choose|i: int| 0 <= i < v.len() && v[i].name@ == k;
                if i < v.len() - 1 {
                    assert(w[i].name@ == k);
                    assert(defs_map(w).contains_key(k));
                }
            }
        }
        assert forall|i: int| 0 <= i < v.len() implies #[trigger] defs_map(v)[v[i].name@] == (
            v[i].description@,
            v[i].parameters_schema@,
        ) by {
            if i < v.len() - 1 {
                lemma_sorted_unique(v, i, v.len() - 1);
                assert(w[i] == v[i]);
                assert(defs_map(w)[w[i].name@] == (w[i].description@, w[i].parameters_schema@));
            }
        }
    }
}

/// Two sorted lists with the same names and entries give the same tools.
proof fn lemma_same_map(v: Seq<ToolDefinition>, m: Map<Seq<char>, (Seq<char>, Seq<char>)>)
    requires
        sorted_names(v),
        forall|k: Seq<char>| #[trigger] m.contains_key(k) <==> exists|i: int|
            0 <= i < v.len() && v[i].name@ == k,
        forall|i: int|
            0 <= i < v.len() ==> #[trigger] m[v[i].name@] == (
                v[i].description@,
                v[i].parameters_schema@,
            ),
    ensures
        defs_map(v) == m,
{
    lemma_defs_map(v);
    assert forall|k: Seq<char>| #[trigger] defs_map(v).contains_key(k) implies defs_map(v)[k]
        == m[k] by {
        let i = choose|i: int| 0 <= i < v.len() && v[i].name@ == k;
        assert(defs_map(v)[v[i].name@] == m[v[i].name@]);
    }
    assert(defs_map(v) =~= m);
}

fn position_in(v: &[ToolDefinition], name: &str) -> (r: (usize, bool))
    requires
        sorted_names(v@),
    ensures
        r.0 <= v@.len(),
        forall|a: int| 0 <= a < r.0 ==> seq_lt(#[trigger] v@[a].name@, name@),
        r.1 ==> r.0 < v@.len() && v@[r.0 as int].name@ == name@,
        !r.1 ==> forall|b: int| r.0 <= b < v@.len() ==> seq_lt(name@, #[trigger] v@[b].name@),
{
    let target = chars_of(name);
    let mut p: usize = 0;
    while p < v.len()
        invariant
            p <= v@.len(),
            target@ == name@,
            sorted_names(v@),
            forall|a: int| 0 <= a < p ==> seq_lt(#[trigger] v@[a].name@, name@),
        decreases v.len() - p,
    {
        let n = chars_of(v[p].name.as_str());
        if !chars_lt(n.as_slice(), target.as_slice()) {
            let same = crate::text::chars_eq(n.as_slice(), target.as_slice());
            proof {
                if !same {
                    lemma_seq_lt_total(n@, name@);
                    assert forall|b: int| p <= b < v@.len() implies seq_lt(
                        name@,
                        #[trigger] v@[b].name@,
                    ) by {
                        if b > p {
                            lemma_seq_lt_trans(name@, n@, v@[b].name@);
                        }
                    }
                }
            }
            return (p, same);
        }
        p = p + 1;
    }
    (p, false)
}

/// The definitions with `d` put in (replacing one of the same name).
fn sorted_put(v: Vec<ToolDefinition>, d: ToolDefinition) -> (r: Vec<ToolDefinition>)
    requires
        sorted_names(v@),
    ensures
        sorted_names(r@),
        defs_map(r@) == defs_map(v@).insert(d.name@, (d.description@, d.parameters_schema@)),
{
    let ghost old = v@;
    proof {
        lemma_defs_map(old);
    }
    let (p, found) = position_in(v.as_slice(), d.name.as_str());
    let ghost m = defs_map(old).insert(d.name@, (d.description@, d.parameters_schema@));
    let ghost dn = d.name@;
    let mut r = v;
    if found {
        r.set(p, d);
        proof {
            let nv = r@;
            assert forall|a: int, b: int| 0 <= a < b < nv.len() implies seq_lt(
                nv[a].name@,
                nv[b].name@,
            ) by {
                assert(nv[a].name@ == old[a].name@ && nv[b].name@ == old[b].name@);
            }
            assert forall|k: Seq<char>| #[trigger] m.contains_key(k) <==> exists|i: int|
                0 <= i < nv.len() && nv[i].name@ == k by {
                if m.contains_key(k) && k != dn {
                    assert(defs_map(old).contains_key(k));
                    let i = choose|i: int| 0 <= i < old.len() && old[i].name@ == k;
                    assert(nv[i].name@ == k);
                }
                if m.contains_key(k) && k == dn {
                    assert(nv[p as int].name@ == k);
                }
                if exists|i: int| 0 <= i < nv.len() && nv[i].name@ == k {
                    let i = choose|i: int| 0 <= i < nv.len() && nv[i].name@ == k;
                    if i != p {
                        assert(old[i].name@ == k);
                        assert(defs_map(old).contains_key(k));
                    }
                }
            }
            assert forall|i: int| 0 <= i < nv.len() implies #[trigger] m[nv[i].name@] == (
                nv[i].description@,
                nv[i].parameters_schema@,
            ) by {
                if i != p {
                    lemma_sorted_unique(old, i, p as int);
                    assert(defs_map(old)[old[i].name@] == (old[i].description@, old[i].parameters_schema@));
                }
            }
            lemma_same_map(nv, m);
        }
    } else {
        r.insert(p, d);
        proof {
            let nv = r@;
            assert forall|a: int, b: int| 0 <= a < b < nv.len() implies seq_lt(
                nv[a].name@,
                nv[b].name@,
            ) by {
                if b < p {
                    assert(nv[a] == old[a] && nv[b] == old[b]);
                } else if b == p {
                    assert(nv[a] == old[a]);
                } else if a < p {
                    assert(nv[a] == old[a] && nv[b] == old[b - 1]);
                    lemma_seq_lt_trans(nv[a].name@, dn, nv[b].name@);
                } else if a == p {
                    assert(nv[b] == old[b - 1]);
                } else {
                    assert(nv[a] == old[a - 1] && nv[b] == old[b - 1]);
                }
            }
            assert forall|k: Seq<char>| #[trigger] m.contains_key(k) <==> exists|i: int|
                0 <= i < nv.len() && nv[i].name@ == k by {
                if m.contains_key(k) && k != dn {
                    assert(defs_map(old).contains_key(k));
                    let i = choose|i: int| 0 <= i < old.len() && old[i].name@ == k;
                    if i < p {
                        assert(nv[i].name@ == k);
                    } else {
                        assert(nv[i + 1].name@ == k);
                    }
                }
                if m.contains_key(k) && k == dn {
                    assert(nv[p as int].name@ == k);
                }
                if exists|i: int| 0 <= i < nv.len() && nv[i].name@ == k {
                    let i = choose|i: int| 0 <= i < nv.len() && nv[i].name@ == k;
                    if i < p {
                        assert(old[i].name@ == k);
                        assert(defs_map(old).contains_key(k));
                    } else if i > p {
                        assert(old[i - 1].name@ == k);
                        assert(defs_map(old).contains_key(k));
                    }
                }
            }
            assert forall|i: int| 0 <= i < nv.len() implies #[trigger] m[nv[i].name@] == (
                nv[i].description@,
                nv[i].parameters_schema@,
            ) by {
                if i < p {
                    lemma_seq_lt_irrefl(dn);
                    assert(nv[i] == old[i]);
                    assert(nv[i].name@ != dn);
                    assert(defs_map(old)[old[i].name@] == (old[i].description@, old[i].parameters_schema@));
                } else if i > p {
                    lemma_seq_lt_irrefl(dn);
                    assert(nv[i] == old[i - 1]);
                    assert(nv[i].name@ != dn);
                    assert(defs_map(old)[old[i - 1].name@] == (
                        old[i - 1].description@,
                        old[i - 1].parameters_schema@,
                    ));
                }
            }
            lemma_same_map(nv, m);
        }
    }
    r
}

/// The definitions without the one named `name`, and whether there was
/// one.
fn sorted_take(v: Vec<ToolDefinition>, name: &str) -> (r: (Vec<ToolDefinition>, bool))
    requires
        sorted_names(v@),
    ensures
        sorted_names(r.0@),
        defs_map(r.0@) == defs_map(v@).remove(name@),
        r.1 == defs_map(v@).contains_key(name@),
{
    let ghost old = v@;
    proof {
        lemma_defs_map(old);
    }
    let (p, found) = position_in(v.as_slice(), name);
    let ghost m = defs_map(old).remove(name@);
    if !found {
        proof {
            if defs_map(old).contains_key(name@) {
                let i = choose|i: int| 0 <= i < old.len() && old[i].name@ == name@;
                lemma_seq_lt_irrefl(name@);
            }
            assert(m =~= defs_map(old));
        }
        return (v, false);
    }
    let mut r = v;
    r.remove(p);
    proof {
        let nv = r@;
        assert forall|a: int, b: int| 0 <= a < b < nv.len() implies seq_lt(
            nv[a].name@,
            nv[b].name@,
        ) by {
            if b < p {
                assert(nv[a] == old[a] && nv[b] == old[b]);
            } else if a < p {
                assert(nv[a] == old[a] && nv[b] == old[b + 1]);
            } else {
                assert(nv[a] == old[a + 1] && nv[b] == old[b + 1]);
            }
        }
        assert forall|k: Seq<char>| #[trigger] m.contains_key(k) <==> exists|i: int|
            0 <= i < nv.len() && nv[i].name@ == k by {
            if m.contains_key(k) {
                assert(defs_map(old).contains_key(k));
                let i = choose|i: int| 0 <= i < old.len() && old[i].name@ == k;
                if i < p {
                    assert(nv[i].name@ == k);
                } else if i > p {
                    assert(nv[i - 1].name@ == k);
                }
            }
            if exists|i: int| 0 <= i < nv.len() && nv[i].name@ == k {
                let i = choose|i: int| 0 <= i < nv.len() && nv[i].name@ == k;
                if i < p {
                    assert(old[i].name@ == k);
                    lemma_sorted_unique(old, i, p as int);
                    assert(defs_map(old).contains_key(k));
                } else {
                    assert(old[i + 1].name@ == k);
                    lemma_sorted_unique(old, i + 1, p as int);
                    assert(defs_map(old).contains_key(k));
                }
            }
        }
        assert forall|i: int| 0 <= i < nv.len() implies #[trigger] m[nv[i].name@] == (
            nv[i].description@,
            nv[i].parameters_schema@,
        ) by {
            if i < p {
                assert(nv[i] == old[i]);
                lemma_sorted_unique(old, i, p as int);
                assert(defs_map(old)[old[i].name@] == (old[i].description@, old[i].parameters_schema@));
            } else {
                assert(nv[i] == old[i + 1]);
                lemma_sorted_unique(old, i + 1, p as int);
                assert(defs_map(old)[old[i + 1].name@] == (
                    old[i + 1].description@,
                    old[i + 1].parameters_schema@,
                ));
            }
        }
        lemma_same_map(nv, m);
    }
    (r, true)
}

/// `v` with `name` added unless listed.
fn with_name(v: Vec<String>, name: &str) -> (r: Vec<String>)
    ensures
        forall|k: Seq<char>| listed(r@, k) <==> (listed(v@, k) || k == name@),
{
    if is_listed(v.as_slice(), name) {
        return v;
    }
    let mut r = v;
    let ghost old = r@;
    r.push(owned(name));
    proof {
        assert forall|k: Seq<char>| listed(r@, k) <==> (listed(old, k) || k == name@) by {
            if listed(old, k) {
                let i = choose|i: int| 0 <= i < old.len() && old[i]@ == k;
                assert(r@[i]@ == k);
            }
            if k == name@ {
                assert(r@[old.len() as int]@ == k);
            }
            if listed(r@, k) {
                let i = choose|i: int| 0 <= i < r@.len() && r@[i]@ == k;
                if i < old.len() {
                    assert(old[i]@ == k);
                }
            }
        }
    }
    r
}

/// `v` without `name`.
fn without_name(v: &Vec<String>, name: &str) -> (r: Vec<String>)
    ensures
        forall|k: Seq<char>| listed(r@, k) <==> (listed(v@, k) && k != name@),
{
    let mut r: Vec<String> = Vec::new();
    let mut i: usize = 0;
    while i < v.len()
        invariant
            i <= v@.len(),
            forall|k: Seq<char>| listed(r@, k) <==> (listed(v@.take(i as int), k) && k != name@),
        decreases v.len() - i,
    {
        let ghost before = r@;
        let keep = !crate::text::str_is(v[i].as_str(), name);
        if keep {
            r.push(v[i].clone());
        }
        proof {
            let t = v@.take(i as int + 1);
            let ti = v@.take(i as int);
            assert(keep == (v@[i as int]@ != name@));
            assert forall|k: Seq<char>| listed(r@, k) <==> (listed(t, k) && k != name@) by {
                if listed(t, k) && k != name@ {
                    let j = choose|j: int| 0 <= j < t.len() && t[j]@ == k;
                    if j < i {
                        assert(ti[j]@ == k);
                        assert(listed(ti, k));
                        assert(listed(before, k));
                        let q = choose|q: int| 0 <= q < before.len() && before[q]@ == k;
                        assert(r@[q]@ == k);
                    } else {
                        assert(v@[i as int]@ == k);
                        assert(r@[before.len() as int]@ == k);
                    }
                }
                if listed(r@, k) {
                    let q = choose|q: int| 0 <= q < r@.len() && r@[q]@ == k;
                    if q < before.len() {
                        assert(before[q]@ == k);
                        assert(listed(before, k));
                        assert(listed(ti, k));
                        let j = choose|j: int| 0 <= j < ti.len() && ti[j]@ == k;
                        assert(t[j]@ == k);
                    } else {
                        assert(r@[q]@ == v@[i as int]@);
                        assert(t[i as int]@ == k);
                    }
                }
            }
        }
        i = i + 1;
    }
    assert(v@.take(v@.len() as int) =~= v@);
    r
}

/// The default settings of the agents that the tools read.
#[derive(Debug, Clone, Copy)]
pub struct AgentDefaults {
    /// The most output bytes the exec tool keeps.
    pub exec_max_capture_bytes: usize,
}

/// The agents' part of the configuration.
#[derive(Debug, Clone, Copy)]
pub struct AgentsConfig {
    pub defaults: AgentDefaults,
}

/// The configuration the registry reads its settings from.
#[derive(Debug, Clone, Copy)]
pub struct Config {
    pub agents: AgentsConfig,
}

/// The registry of tools.
#[derive(Debug)]
pub struct ToolRegistryImpl {
    /// One definition per tool, sorted by name.
    definitions: Vec<ToolDefinition>,
    /// The tools that came from extensions.
    extension_tool_names: Vec<String>,
    /// Names removed for good: never registered again.
    denied_names: Vec<String>,
    /// The handles of the guards that run before each call, in the order
    /// they run.
    guards: Vec<u64>,
    /// The session the tools were last told of.
    session_key: Option<String>,
}

impl ToolRegistryImpl {
    #[verifier::type_invariant]
    spec fn well_formed(self) -> bool {
        &&& sorted_names(self.definitions@)
        &&& forall|k: Seq<char>| listed(self.extension_tool_names@, k) ==> defs_map(
            self.definitions@,
        ).contains_key(k)
    }

    /// The registered tools: each name with its description and schema.
    pub closed spec fn tools(&self) -> Map<Seq<char>, (Seq<char>, Seq<char>)> {
        defs_map(self.definitions@)
    }

    /// The names of the tools that came from extensions.
    pub closed spec fn extensions(&self) -> Set<Seq<char>> {
        Set::new(|k: Seq<char>| listed(self.extension_tool_names@, k))
    }

    /// The names that may never be registered again.
    pub closed spec fn denied(&self) -> Set<Seq<char>> {
        Set::new(|k: Seq<char>| listed(self.denied_names@, k))
    }

    /// The registered definitions, in name order.
    pub closed spec fn def_list(&self) -> Seq<ToolDefinition> {
        self.definitions@
    }

    /// The guards' handles, in the order they run.
    pub closed spec fn guard_list(&self) -> Seq<u64> {
        self.guards@
    }

    /// The number of guards.
    pub open spec fn guard_total(&self) -> nat {
        self.guard_list().len()
    }

    /// An empty registry.
    pub fn new() -> (r: ToolRegistryImpl)
        ensures
            r.tools() == Map::<Seq<char>, (Seq<char>, Seq<char>)>::empty(),
            r.extensions() == Set::<Seq<char>>::empty(),
            r.denied() == Set::<Seq<char>>::empty(),
            r.guard_list() == Seq::<u64>::empty(),
            r.session() is None,
    {
        let r = ToolRegistryImpl {
            definitions: Vec::new(),
            extension_tool_names: Vec::new(),
            denied_names: Vec::new(),
            guards: Vec::new(),
            session_key: None,
        };
        assert(r.extensions() =~= Set::<Seq<char>>::empty());
        assert(r.denied() =~= Set::<Seq<char>>::empty());
        r
    }

    /// The definitions of all tools, sorted by name.
    pub fn definitions(&self) -> (r: &[ToolDefinition])
        ensures
            r@ == self.def_list(),
            sorted_names(r@),
            defs_map(r@) == self.tools(),
    {
        proof {
            use_type_invariant(self);
        }
        self.definitions.as_slice()
    }

    fn position(&self, name: &str) -> (r: (usize, bool))
        ensures
            r.0 <= self.definitions@.len(),
            forall|a: int| 0 <= a < r.0 ==> seq_lt(#[trigger] self.definitions@[a].name@, name@),
            r.1 ==> r.0 < self.definitions@.len() && self.definitions@[r.0 as int].name@ == name@,
            !r.1 ==> forall|b: int|
                r.0 <= b < self.definitions@.len() ==> seq_lt(name@, #[trigger] self.definitions@[b].name@),
    {
        proof {
            use_type_invariant(self);
        }
        let target = chars_of(name);
        let mut p: usize = 0;
        while p < self.definitions.len()
            invariant
                p <= self.definitions@.len(),
                target@ == name@,
                sorted_names(self.definitions@),
                forall|a: int| 0 <= a < p ==> seq_lt(#[trigger] self.definitions@[a].name@, name@),
            decreases self.definitions.len() - p,
        {
            let n = chars_of(self.definitions[p].name.as_str());
            if !chars_lt(n.as_slice(), target.as_slice()) {
                let same = crate::text::chars_eq(n.as_slice(), target.as_slice());
                proof {
                    if !same {
                        lemma_seq_lt_total(n@, name@);
                        assert forall|b: int| p <= b < self.definitions@.len() implies seq_lt(
                            name@,
                            #[trigger] self.definitions@[b].name@,
                        ) by {
                            if b > p {
                                lemma_seq_lt_trans(name@, n@, self.definitions@[b].name@);
                            }
                        }
                    }
                }
                return (p, same);
            }
            p = p + 1;
        }
        (p, false)
    }

    /// Whether a tool is registered under `name`.
    pub fn contains(&self, name: &str) -> (r: bool)
        ensures
            r == self.tools().contains_key(name@),
    {
        proof {
            use_type_invariant(self);
            lemma_defs_map(self.definitions@);
        }
        let (p, found) = self.position(name);
        proof {
            if !found {
                if self.tools().contains_key(name@) {
                    let i = choose|i: int| 0 <= i < self.definitions@.len() && self.definitions@[i].name@ == name@;
                    if i < p {
                        lemma_seq_lt_irrefl(name@);
                    } else {
                        lemma_seq_lt_irrefl(name@);
                    }
                }
            }
        }
        found
    }

    /// The definition of the tool named `name`.
    pub fn get(&self, name: &str) -> (r: Option<&ToolDefinition>)
        ensures
            match r {
                Some(d) => self.tools().contains_key(name@) && d.name@ == name@ && self.tools()[name@]
                    == (d.description@, d.parameters_schema@),
                None => !self.tools().contains_key(name@),
            },
    {
        proof {
            use_type_invariant(self);
            lemma_defs_map(self.definitions@);
        }
        let (p, found) = self.position(name);
        if found {
            Some(&self.definitions[p])
        } else {
            proof {
                if self.tools().contains_key(name@) {
                    let i = choose|i: int| 0 <= i < self.definitions@.len() && self.definitions@[i].name@ == name@;
                    lemma_seq_lt_irrefl(name@);
                }
            }
            None
        }
    }
}


/// The names a `remove_all` of `names` warns about, against tools `m`: each
/// name that was not registered by the time its turn came (missing from
/// the start, or already removed earlier in the list).
pub open spec fn remove_warnings(m: Map<Seq<char>, (Seq<char>, Seq<char>)>, names: Seq<Seq<char>>) -> Seq<
    Seq<char>,
>
    decreases names.len(),
{
    if names.len() == 0 {
        seq![]
    } else {
        let rest = names.drop_last();
        let n = names.last();
        remove_warnings(m, rest) + if !m.contains_key(n) || rest.contains(n) {
            seq![n]
        } else {
            seq![]
        }
    }
}

impl ToolRegistryImpl {
    fn take_parts(&mut self) -> (r: (Vec<ToolDefinition>, Vec<String>, Vec<String>, Vec<u64>, Option<String>))
        ensures
            r.0@ == old(self).definitions@,
            r.1@ == old(self).extension_tool_names@,
            r.2@ == old(self).denied_names@,
            r.3@ == old(self).guards@,
            r.4 == old(self).session_key,
            sorted_names(r.0@),
            forall|k: Seq<char>| listed(r.1@, k) ==> defs_map(r.0@).contains_key(k),
    {
        proof {
            use_type_invariant(&*self);
        }
        let mut taken = ToolRegistryImpl::new();
        std::mem::swap(&mut taken, self);
        let ToolRegistryImpl {
            definitions,
            extension_tool_names,
            denied_names,
            guards,
            session_key,
        } = taken;
        (definitions, extension_tool_names, denied_names, guards, session_key)
    }

    /// Registers a tool's definition under its name, replacing one of the
    /// same name, unless the name was removed for good (then nothing
    /// changes). Returns whether it was registered.
    pub fn register(&mut self, def: ToolDefinition) -> (r: bool)
        ensures
            r == !old(self).denied().contains(def.name@),
            r ==> final(self).tools() == old(self).tools().insert(
                def.name@,
                (def.description@, def.parameters_schema@),
            ),
            !r ==> final(self).tools() == old(self).tools(),
            final(self).extensions() == old(self).extensions(),
            final(self).denied() == old(self).denied(),
            final(self).guard_list() == old(self).guard_list(),
    {
        proof {
            use_type_invariant(&*self);
        }
        if is_listed(self.denied_names.as_slice(), def.name.as_str()) {
            return false;
        }
        let (defs, ext, denied, guards, session_key) = self.take_parts();
        let defs = sorted_put(defs, def);
        *self = ToolRegistryImpl {
            definitions: defs,
            extension_tool_names: ext,
            denied_names: denied,
            guards,
            session_key,
        };
        proof {
            assert(self.extensions() =~= old(self).extensions());
            assert(self.denied() =~= old(self).denied());
        }
        true
    }
}


impl ToolRegistryImpl {
    /// Registers a tool from an extension, unless its name was removed for
    /// good or names a core tool (then nothing changes). Returns whether it
    /// was registered.
    pub fn register_extension(&mut self, def: ToolDefinition) -> (r: bool)
        ensures
            r == (!old(self).denied().contains(def.name@) && (old(self).tools().contains_key(
                def.name@,
            ) ==> old(self).extensions().contains(def.name@))),
            r ==> final(self).tools() == old(self).tools().insert(
                def.name@,
                (def.description@, def.parameters_schema@),
            ) && final(self).extensions() == old(self).extensions().insert(def.name@),
            !r ==> final(self).tools() == old(self).tools() && final(self).extensions() == old(
                self,
            ).extensions(),
            final(self).denied() == old(self).denied(),
            final(self).guard_list() == old(self).guard_list(),
    {
        proof {
            use_type_invariant(&*self);
        }
        if is_listed(self.denied_names.as_slice(), def.name.as_str()) {
            return false;
        }
        if self.contains(def.name.as_str()) && !is_listed(
            self.extension_tool_names.as_slice(),
            def.name.as_str(),
        ) {
            return false;
        }
        let ghost name = def.name@;
        let (defs, ext, denied, guards, session_key) = self.take_parts();
        let ext = with_name(ext, def.name.as_str());
        let defs = sorted_put(defs, def);
        *self = ToolRegistryImpl {
            definitions: defs,
            extension_tool_names: ext,
            denied_names: denied,
            guards,
            session_key,
        };
        proof {
            assert(self.extensions() =~= old(self).extensions().insert(name));
            assert(self.denied() =~= old(self).denied());
        }
        true
    }

    /// Removes an extension tool; a name that is not an extension's
    /// (a core tool's, or none) changes nothing.
    pub fn unregister_extension(&mut self, name: &str)
        ensures
            !old(self).extensions().contains(name@) ==> final(self).tools() == old(self).tools()
                && final(self).extensions() == old(self).extensions(),
            old(self).extensions().contains(name@) ==> final(self).tools() == old(self).tools().remove(
                name@,
            ) && final(self).extensions() == old(self).extensions().remove(name@),
            final(self).denied() == old(self).denied(),
            final(self).guard_list() == old(self).guard_list(),
    {
        proof {
            use_type_invariant(&*self);
        }
        if !is_listed(self.extension_tool_names.as_slice(), name) {
            return;
        }
        let (defs, ext, denied, guards, session_key) = self.take_parts();
        let ext = without_name(&ext, name);
        let (defs, _) = sorted_take(defs, name);
        *self = ToolRegistryImpl {
            definitions: defs,
            extension_tool_names: ext,
            denied_names: denied,
            guards,
            session_key,
        };
        proof {
            assert(self.extensions() =~= old(self).extensions().remove(name@));
            assert(self.denied() =~= old(self).denied());
        }
    }

    /// Removes a tool and denies its name for good. Returns whether a tool
    /// of that name was registered.
    pub fn remove(&mut self, name: &str) -> (r: bool)
        ensures
            r == old(self).tools().contains_key(name@),
            final(self).tools() == old(self).tools().remove(name@),
            final(self).extensions() == old(self).extensions().remove(name@),
            final(self).denied() == old(self).denied().insert(name@),
            final(self).guard_list() == old(self).guard_list(),
    {
        proof {
            use_type_invariant(&*self);
        }
        let (defs, ext, denied, guards, session_key) = self.take_parts();
        let denied = with_name(denied, name);
        let ext = without_name(&ext, name);
        let (defs, found) = sorted_take(defs, name);
        *self = ToolRegistryImpl {
            definitions: defs,
            extension_tool_names: ext,
            denied_names: denied,
            guards,
            session_key,
        };
        proof {
            assert(self.extensions() =~= old(self).extensions().remove(name@));
            assert(self.denied() =~= old(self).denied().insert(name@));
        }
        found
    }

    /// Removes several tools (see `remove`); returns the names that were not
    /// registered at their turn (see `remove_warnings`).
    pub fn remove_all(&mut self, names: &[String]) -> (warnings: Vec<String>)
        ensures
            final(self).tools() == old(self).tools().remove_keys(crate::jail::strs(names@).to_set()),
            final(self).extensions() == old(self).extensions().difference(
                crate::jail::strs(names@).to_set(),
            ),
            final(self).denied() == old(self).denied().union(crate::jail::strs(names@).to_set()),
            crate::jail::strs(warnings@) == remove_warnings(old(self).tools(), crate::jail::strs(names@)),
            final(self).guard_list() == old(self).guard_list(),
    {
        let ghost nv = crate::jail::strs(names@);
        let ghost m0 = self.tools();
        let mut warnings: Vec<String> = Vec::new();
        let mut i: usize = 0;
        while i < names.len()
            invariant
                i <= names@.len(),
                nv == crate::jail::strs(names@),
                m0 == old(self).tools(),
                self.tools() == m0.remove_keys(nv.take(i as int).to_set()),
                self.extensions() == old(self).extensions().difference(nv.take(i as int).to_set()),
                self.denied() == old(self).denied().union(nv.take(i as int).to_set()),
                self.guard_list() == old(self).guard_list(),
                crate::jail::strs(warnings@) == remove_warnings(m0, nv.take(i as int)),
            decreases names.len() - i,
        {
            let ghost pre = nv.take(i as int);
            let ghost n = nv[i as int];
            assert(nv.take(i as int + 1).drop_last() =~= pre);
            assert(nv.take(i as int + 1).last() == n);
            proof {
                let nx = nv.take(i as int + 1);
                assert(nx =~= pre.push(n));
                assert forall|k: Seq<char>| #[trigger] nx.to_set().contains(k) <==> pre.to_set().insert(
                    n,
                ).contains(k) by {
                    if nx.contains(k) {
                        let j = choose|j: int| 0 <= j < nx.len() && #[trigger] nx[j] == k;
                        if j < i {
                            assert(pre[j] == k);
                        }
                    }
                    if pre.contains(k) {
                        let j = choose|j: int| 0 <= j < pre.len() && #[trigger] pre[j] == k;
                        assert(nx[j] == k);
                    }
                    if k == n {
                        assert(nx[i as int] == k);
                    }
                }
                assert(nx.to_set() =~= pre.to_set().insert(n));
            }
            let found = self.remove(names[i].as_str());
            assert(names@[i as int]@ == n);
            proof {
                assert(found == !(!m0.contains_key(n) || pre.contains(n))) by {
                    if pre.contains(n) {
                        assert(pre.to_set().contains(n));
                    }
                    if !pre.contains(n) {
                        assert(!pre.to_set().contains(n));
                    }
                }
            }
            let ghost wbefore = crate::jail::strs(warnings@);
            if !found {
                warnings.push(names[i].clone());
            }
            proof {
                if !found {
                    assert(crate::jail::strs(warnings@) =~= wbefore.push(n));
                }
                assert(crate::jail::strs(warnings@) =~= remove_warnings(m0, nv.take(i as int + 1)));
                assert(self.tools() =~= m0.remove_keys(nv.take(i as int + 1).to_set()));
                assert(self.extensions() =~= old(self).extensions().difference(
                    nv.take(i as int + 1).to_set(),
                ));
                assert(self.denied() =~= old(self).denied().union(nv.take(i as int + 1).to_set()));
            }
            i = i + 1;
        }
        assert(nv.take(names@.len() as int) =~= nv);
        warnings
    }

    /// The names of the extension tools.
    pub fn extension_names(&self) -> (r: Vec<String>)
        ensures
            forall|k: Seq<char>| listed(r@, k) <==> self.extensions().contains(k),
            forall|a: int, b: int| 0 <= a < b < r@.len() ==> r@[a]@ != r@[b]@,
    {
        let mut r: Vec<String> = Vec::new();
        let mut i: usize = 0;
        while i < self.extension_tool_names.len()
            invariant
                i <= self.extension_tool_names@.len(),
                forall|a: int, b: int| 0 <= a < b < r@.len() ==> r@[a]@ != r@[b]@,
                forall|k: Seq<char>| listed(r@, k) <==> listed(
                    self.extension_tool_names@.take(i as int),
                    k,
                ),
            decreases self.extension_tool_names.len() - i,
        {
            let ghost before = r@;
            let ghost t = self.extension_tool_names@.take(i as int + 1);
            if is_listed(r.as_slice(), self.extension_tool_names[i].as_str()) {
                proof {
                    assert forall|k: Seq<char>| listed(r@, k) <==> listed(t, k) by {
                        if listed(r@, k) {
                            let j = choose|j: int| 0 <= j < i && self.extension_tool_names@.take(i as int)[j]@ == k;
                            assert(t[j]@ == k);
                        }
                        if listed(t, k) {
                            let j = choose|j: int| 0 <= j < t.len() && t[j]@ == k;
                            if j < i {
                                assert(self.extension_tool_names@.take(i as int)[j]@ == k);
                            }
                        }
                    }
                }
                i = i + 1;
                continue;
            }
            r.push(self.extension_tool_names[i].clone());
            proof {
                assert forall|a: int, b: int| 0 <= a < b < r@.len() implies r@[a]@ != r@[b]@ by {
                    if b == r@.len() - 1 && r@[a]@ == r@[b]@ {
                        assert(before[a]@ == r@[b]@);
                        assert(listed(before, self.extension_tool_names@[i as int]@));
                    }
                }
                assert forall|k: Seq<char>| listed(r@, k) <==> listed(t, k) by {
                    if listed(r@, k) {
                        let q = choose|q: int| 0 <= q < r@.len() && r@[q]@ == k;
                        if q < before.len() {
                            assert(listed(before, k));
                            let j = choose|j: int| 0 <= j < i && self.extension_tool_names@.take(i as int)[j]@ == k;
                            assert(t[j]@ == k);
                        } else {
                            assert(t[i as int]@ == k);
                        }
                    }
                    if listed(t, k) {
                        let j = choose|j: int| 0 <= j < t.len() && t[j]@ == k;
                        if j < i {
                            assert(self.extension_tool_names@.take(i as int)[j]@ == k);
                            assert(listed(before, k));
                            let q = choose|q: int| 0 <= q < before.len() && before[q]@ == k;
                            assert(r@[q]@ == k);
                        } else {
                            assert(r@[before.len() as int]@ == k);
                        }
                    }
                }
            }
            i = i + 1;
        }
        assert(self.extension_tool_names@.take(self.extension_tool_names@.len() as int)
            =~= self.extension_tool_names@);
        r
    }

    /// The names of all tools, in name order.
    pub fn names(&self) -> (r: Vec<String>)
        ensures
            forall|k: Seq<char>| listed(r@, k) <==> self.tools().contains_key(k),
            r@.len() == self.def_list().len(),
            forall|j: int| 0 <= j < r@.len() ==> r@[j]@ == self.def_list()[j].name@,
            forall|a: int, b: int| 0 <= a < b < r@.len() ==> r@[a]@ != r@[b]@,
    {
        proof {
            use_type_invariant(self);
            lemma_defs_map(self.definitions@);
        }
        let mut r: Vec<String> = Vec::new();
        let mut i: usize = 0;
        while i < self.definitions.len()
            invariant
                i <= self.definitions@.len(),
                r@.len() == i,
                forall|j: int| 0 <= j < i ==> r@[j]@ == #[trigger] self.definitions@[j].name@,
            decreases self.definitions.len() - i,
        {
            r.push(self.definitions[i].name.clone());
            i = i + 1;
        }
        proof {
            assert forall|a: int, b: int| 0 <= a < b < r@.len() implies r@[a]@ != r@[b]@ by {
                lemma_sorted_unique(self.definitions@, a, b);
            }
            assert forall|k: Seq<char>| listed(r@, k) <==> self.tools().contains_key(k) by {
                if listed(r@, k) {
                    let j = choose|j: int| 0 <= j < r@.len() && r@[j]@ == k;
                    assert(self.definitions@[j].name@ == k);
                }
                if self.tools().contains_key(k) {
                    let j = choose|j: int| 0 <= j < self.definitions@.len() && self.definitions@[j].name@ == k;
                    assert(r@[j]@ == k);
                }
            }
        }
        r
    }

    /// The session the tools were last told of.
    pub closed spec fn session(&self) -> Option<Seq<char>> {
        match self.session_key {
            Some(k) => Some(k@),
            None => None,
        }
    }

    /// Tells the registered tools that the active session is now
    /// `session_key`; nothing else changes.
    pub fn set_session_key(&mut self, session_key: &str)
        ensures
            final(self).session() == Some(session_key@),
            final(self).tools() == old(self).tools(),
            final(self).extensions() == old(self).extensions(),
            final(self).denied() == old(self).denied(),
            final(self).guard_list() == old(self).guard_list(),
    {
        proof {
            use_type_invariant(&*self);
        }
        let (defs, ext, denied, guards, _) = self.take_parts();
        *self = ToolRegistryImpl {
            definitions: defs,
            extension_tool_names: ext,
            denied_names: denied,
            guards,
            session_key: Some(owned(session_key)),
        };
        proof {
            assert(self.extensions() =~= old(self).extensions());
            assert(self.denied() =~= old(self).denied());
        }
    }

    /// The session the tools were last told of, if any.
    pub fn session_key(&self) -> (r: Option<&str>)
        ensures
            match r {
                Some(k) => self.session() == Some(k@),
                None => self.session() is None,
            },
    {
        match &self.session_key {
            Some(k) => Some(k.as_str()),
            None => None,
        }
    }

    /// The exec tool's captured-output limit, as the configuration gives it.
    pub fn exec_registry_settings_from_config(config: &Config) -> (r: usize)
        ensures
            r == config.agents.defaults.exec_max_capture_bytes,
    {
        config.agents.defaults.exec_max_capture_bytes
    }

    /// Adds the guard with handle `guard` to run before each call, after
    /// every guard registered before it (the guard itself is kept by the
    /// caller under that handle).
    pub fn register_guard(&mut self, guard: u64)
        ensures
            final(self).guard_list() == old(self).guard_list().push(guard),
            final(self).tools() == old(self).tools(),
            final(self).extensions() == old(self).extensions(),
            final(self).denied() == old(self).denied(),
    {
        proof {
            use_type_invariant(&*self);
        }
        let (defs, ext, denied, mut guards, session_key) = self.take_parts();
        guards.push(guard);
        *self = ToolRegistryImpl {
            definitions: defs,
            extension_tool_names: ext,
            denied_names: denied,
            guards,
            session_key,
        };
        proof {
            assert(self.extensions() =~= old(self).extensions());
            assert(self.denied() =~= old(self).denied());
        }
    }

    /// The number of guards.
    pub fn guard_count(&self) -> (r: usize)
        ensures
            r == self.guard_total(),
    {
        self.guards.len()
    }

    /// The guards' handles, in the order they run.
    pub fn guards(&self) -> (r: &[u64])
        ensures
            r@ == self.guard_list(),
    {
        self.guards.as_slice()
    }
}

/// Arguments as a tool receives them: blank ones become `{}`.
pub fn normalise_arguments(arguments: &str) -> (r: &str)
    ensures
        r@ == if trim(arguments@).len() == 0 {
            "{}"@
        } else {
            arguments@
        },
{
    let cs = chars_of(arguments);
    let (a, b) = trim_bounds(cs.as_slice());
    if a == b {
        "{}"
    } else {
        arguments
    }
}

/// The error for a call of a tool that is not registered.
pub fn unknown_tool(name: &str) -> (r: DomainError)
    ensures
        r matches DomainError::Tool(m) && m@ == "unknown tool: "@ + name@,
{
    let mut m = owned("unknown tool: ");
    push_str(&mut m, name);
    DomainError::Tool(m)
}


/// The names of the core tools.
pub open spec fn core_tool_names() -> Set<Seq<char>> {
    set!["bash"@, "read"@, "write"@, "edit"@, "ls"@, "grep"@, "find"@, "docs"@]
}

/// The core tools with their descriptions and schemas.
pub open spec fn core_tools() -> Map<Seq<char>, (Seq<char>, Seq<char>)> {
    Map::<Seq<char>, (Seq<char>, Seq<char>)>::empty()
        .insert("bash"@, (crate::bash::BASH_DESCRIPTION@, crate::bash::BASH_SCHEMA@))
        .insert("read"@, (crate::read::READ_DESCRIPTION@, crate::read::READ_SCHEMA@))
        .insert("write"@, (crate::filesystem::WRITE_DESCRIPTION@, crate::filesystem::WRITE_SCHEMA@))
        .insert("edit"@, (crate::edit::EDIT_DESCRIPTION@, crate::edit::EDIT_SCHEMA@))
        .insert("ls"@, (crate::ls::LS_DESCRIPTION@, crate::ls::LS_SCHEMA@))
        .insert("grep"@, (crate::grep::GREP_DESCRIPTION@, crate::grep::GREP_SCHEMA@))
        .insert("find"@, (crate::find::FIND_DESCRIPTION@, crate::find::FIND_SCHEMA@))
        .insert("docs"@, (crate::docs::DOCS_DESCRIPTION@, crate::docs::DOCS_SCHEMA@))
}

fn sandbox_copy(s: &Sandbox) -> (r: Sandbox)
    ensures
        r.workspace == s.workspace,
        r.restrict_to_workspace == s.restrict_to_workspace,
{
    let ws = match &s.workspace {
        Some(w) => Some(w.clone()),
        None => None,
    };
    Sandbox::new(ws, s.restrict_to_workspace)
}

impl ToolRegistryImpl {
    /// A registry holding the core tools: `bash`, `read`, `write`, `edit`,
    /// `ls`, `grep`, `find` and `docs`, with the default `bash` settings.
    pub fn with_core_tools(workspace: String, sandbox: Sandbox) -> (r: ToolRegistryImpl)
        ensures
            r.tools().dom() == core_tool_names(),
            r.tools() == core_tools(),
            r.extensions() == Set::<Seq<char>>::empty(),
            r.denied() == Set::<Seq<char>>::empty(),
            r.guard_total() == 0,
    {
        ToolRegistryImpl::with_core_tools_and_exec_options(workspace, sandbox, crate::bash::ExecOptions::default())
    }

    /// The core tools, the `bash` tool keeping at most `max_capture_bytes`
    /// of a command's output.
    pub fn with_core_tools_and_exec_settings(workspace: String, sandbox: Sandbox, max_capture_bytes: usize) -> (r: ToolRegistryImpl)
        ensures
            r.tools().dom() == core_tool_names(),
            r.tools() == core_tools(),
            r.extensions() == Set::<Seq<char>>::empty(),
            r.denied() == Set::<Seq<char>>::empty(),
            r.guard_total() == 0,
    {
        let mut opts = crate::bash::ExecOptions::default();
        opts.max_capture_bytes = max_capture_bytes;
        ToolRegistryImpl::with_core_tools_and_exec_options(workspace, sandbox, opts)
    }

    /// The core tools, the `bash` tool with the given settings. The
    /// registry keeps the tools' definitions; the settings go to the `bash`
    /// tool the caller runs.
    pub fn with_core_tools_and_exec_options(workspace: String, sandbox: Sandbox, exec_options: crate::bash::ExecOptions) -> (r: ToolRegistryImpl)
        ensures
            r.tools().dom() == core_tool_names(),
            r.tools() == core_tools(),
            r.extensions() == Set::<Seq<char>>::empty(),
            r.denied() == Set::<Seq<char>>::empty(),
            r.guard_total() == 0,
    {
        let mut reg = ToolRegistryImpl::new();
        let d = crate::bash::ExecTool::with_options(workspace.clone(), sandbox_copy(&sandbox), exec_options).definition();
        reg.register(d);
        let d = crate::read::ReadTool::new(workspace.clone(), sandbox_copy(&sandbox)).definition();
        reg.register(d);
        let d = crate::filesystem::WriteTool::new(workspace.clone(), sandbox_copy(&sandbox)).definition();
        reg.register(d);
        let d = crate::edit::EditTool::new(workspace.clone(), sandbox_copy(&sandbox)).definition();
        reg.register(d);
        let d = crate::ls::LsTool::new(workspace.clone(), sandbox_copy(&sandbox)).definition();
        reg.register(d);
        let d = crate::grep::GrepTool::new(workspace.clone(), sandbox_copy(&sandbox)).definition();
        reg.register(d);
        let d = crate::find::FindTool::new(workspace.clone(), sandbox_copy(&sandbox)).definition();
        reg.register(d);
        let d = crate::docs::DocsTool::new().definition();
        reg.register(d);
        assert(reg.tools() =~= core_tools());
        assert(reg.tools().dom() =~= core_tool_names());
        reg
    }
}

} // verus!
