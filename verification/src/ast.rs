//! The parsed form of facts and rules, as the parser hands it over, and what
//! can be read off it before lowering: the wildcards of an application and
//! the free variables of an item.

use crate::formula::Constant;
use std::collections::HashSet;
use vstd::prelude::*;

verus! {

/// A region of the source text.
#[derive(Clone, Copy, PartialEq, Eq, Hash, Debug, Structural)]
pub struct Span {
    pub lo: usize,
    pub hi: usize,
}

/// A named variable. Two variables are the same when their names are.
#[derive(Clone, Copy, PartialEq, Eq, Hash, Debug, Structural)]
pub struct Variable {
    pub id: u64,
}

/// An argument of an application.
#[derive(PartialEq, Eq, Hash, Debug)]
pub enum Value {
    Constant(Constant),
    Variable(Variable),
    Application(Application),
    /// `_`: a place that nothing else refers to.
    Wildcard,
}

/// A constant applied to arguments: an atomic formula, or a term inside
/// one.
#[derive(PartialEq, Eq, Hash, Debug)]
pub struct Application {
    pub constant: Constant,
    pub args: Vec<Value>,
}

/// A formula with its place in the source.
#[derive(PartialEq, Eq, Hash, Debug)]
pub struct Fact {
    pub span: Span,
    pub data: Box<FactData>,
}

/// The forms of a formula.
#[derive(PartialEq, Eq, Hash, Debug)]
pub enum FactData {
    And(Fact, Fact),
    Or(Fact, Fact),
    /// The first implies the second.
    Implication(Fact, Fact),
    ForAll(Variable, Fact),
    Exists(Variable, Fact),
    Apply(Application),
}

/// `consequence :- condition`.
#[derive(PartialEq, Eq, Hash, Debug)]
pub struct Rule {
    pub consequence: Application,
    pub condition: Fact,
}

/// A fact or a rule of a program.
#[derive(PartialEq, Eq, Hash, Debug)]
pub enum Item {
    Fact(Application),
    Rule(Rule),
}

/// The number of wildcards in `value`.
pub open spec fn value_wildcards(value: Value) -> nat
    decreases value, 0nat,
{
    match value {
        Value::Wildcard => 1,
        Value::Application(app) => wildcards_upto(app, app.args@.len()),
        _ => 0,
    }
}

/// The number of wildcards in the first `n` arguments of `app`, those inside
/// nested applications included.
pub open spec fn wildcards_upto(app: Application, n: nat) -> nat
    decreases app, n,
{
    if n == 0 || n > app.args@.len() {
        0
    } else {
        wildcards_upto(app, (n - 1) as nat) + value_wildcards(app.args@[n - 1])
    }
}

/// The variables that occur in `value`, in the order of the source, each as
/// often as it occurs.
pub open spec fn value_variables(value: Value) -> Seq<Variable>
    decreases value, 0nat,
{
    match value {
        Value::Variable(v) => seq![v],
        Value::Application(app) => variables_upto(app, app.args@.len()),
        _ => Seq::empty(),
    }
}

/// The variables that occur in the first `n` arguments of `app`, in the
/// order of the source, each as often as it occurs.
pub open spec fn variables_upto(app: Application, n: nat) -> Seq<Variable>
    decreases app, n,
{
    if n == 0 || n > app.args@.len() {
        Seq::empty()
    } else {
        variables_upto(app, (n - 1) as nat) + value_variables(app.args@[n - 1])
    }
}

/// `names` without the names that `bound` holds, in the same order.
pub open spec fn without(names: Seq<Variable>, bound: Seq<Variable>) -> Seq<Variable>
    decreases names.len(),
{
    if names.len() == 0 {
        Seq::empty()
    } else if bound.contains(names.last()) {
        without(names.drop_last(), bound)
    } else {
        without(names.drop_last(), bound).push(names.last())
    }
}

/// `found`, then each name of `names` that is not there yet, in the order of
/// its first occurrence.
pub open spec fn add_distinct(found: Seq<Variable>, names: Seq<Variable>) -> Seq<Variable>
    decreases names.len(),
{
    if names.len() == 0 {
        found
    } else {
        let rest = add_distinct(found, names.drop_last());
        if rest.contains(names.last()) {
            rest
        } else {
            rest.push(names.last())
        }
    }
}

impl Application {
    /// The number of wildcards in the application.
    pub open spec fn wildcards(&self) -> nat {
        wildcards_upto(*self, self.args@.len())
    }

    /// The variables that occur in the application, in the order of the
    /// source, each as often as it occurs.
    pub open spec fn variables(&self) -> Seq<Variable> {
        variables_upto(*self, self.args@.len())
    }

    /// Counts the wildcards in the application.
    pub fn count_wildcards(&self) -> (n: usize)
        requires
            self.wildcards() <= usize::MAX,
        ensures
            n == self.wildcards(),
    {
        count_wildcards_in(self)
    }
}

/// The number of wildcards does not shrink as more arguments are counted.
pub proof fn lemma_wildcards_upto_monotonic(app: Application, i: nat, j: nat)
    requires
        i <= j <= app.args@.len(),
    ensures
        wildcards_upto(app, i) <= wildcards_upto(app, j),
    decreases j,
{
    if i < j {
        lemma_wildcards_upto_monotonic(app, i, (j - 1) as nat);
    }
}

/// Counts the wildcards of `app`, those of nested applications included.
fn count_wildcards_in(app: &Application) -> (n: usize)
    requires
        app.wildcards() <= usize::MAX,
    ensures
        n == app.wildcards(),
    decreases app,
{
    let mut n: usize = 0;
    let mut i: usize = 0;
    while i < app.args.len()
        invariant
            i <= app.args.len(),
            n == wildcards_upto(*app, i as nat),
            app.wildcards() <= usize::MAX,
        decreases app.args.len() - i,
    {
        proof {
            lemma_wildcards_upto_monotonic(*app, (i + 1) as nat, app.args@.len());
            assert(wildcards_upto(*app, (i + 1) as nat) == wildcards_upto(*app, i as nat)
                + value_wildcards(app.args@[i as int]));
        }
        match &app.args[i] {
            Value::Wildcard => {
                n = n + 1;
            },
            Value::Application(inner) => {
                let m = count_wildcards_in(inner);
                n = n + m;
            },
            _ => {},
        }
        i = i + 1;
    }
    n
}

impl Fact {
    /// The variables that occur free in the fact when the names `bound` are
    /// bound around it: in the order of the source, each as often as it
    /// occurs. A quantifier binds its variable in its body.
    pub open spec fn free_variables(&self, bound: Seq<Variable>) -> Seq<Variable>
        decreases *self,
    {
        match *self.data {
            FactData::And(a, b) => a.free_variables(bound) + b.free_variables(bound),
            FactData::Or(a, b) => a.free_variables(bound) + b.free_variables(bound),
            FactData::Implication(a, b) => a.free_variables(bound) + b.free_variables(bound),
            FactData::ForAll(v, body) => body.free_variables(bound.push(v)),
            FactData::Exists(v, body) => body.free_variables(bound.push(v)),
            FactData::Apply(app) => without(app.variables(), bound),
        }
    }
}

impl Item {
    /// The variables that occur free in the item, in the order of the
    /// source, each as often as it occurs: those of the consequence first.
    pub open spec fn free_occurrences(&self) -> Seq<Variable> {
        match self {
            Item::Fact(app) => app.variables(),
            Item::Rule(rule) => rule.consequence.variables() + rule.condition.free_variables(
                Seq::empty(),
            ),
        }
    }

    /// The free variables of the item: each once, in the order of its first
    /// occurrence. Wildcards are not among them.
    pub open spec fn free_variables(&self) -> Seq<Variable> {
        add_distinct(Seq::empty(), self.free_occurrences())
    }

    /// Collects the free variables of the item: each once, in the order of
    /// its first occurrence.
    pub fn collect_free_variables(&self) -> (names: Vec<Variable>)
        ensures
            names@ == self.free_variables(),
    {
        let mut collector = Collector::new();
        match self {
            Item::Fact(app) => {
                collector.visit_application(app);
            },
            Item::Rule(rule) => {
                collector.visit_application(&rule.consequence);
                let ghost after_head = collector.found();
                collector.visit_fact(&rule.condition);
                proof {
                    lemma_without_nothing(rule.consequence.variables());
                    lemma_add_distinct_concat(
                        Seq::empty(),
                        rule.consequence.variables(),
                        rule.condition.free_variables(Seq::empty()),
                    );
                }
            },
        }
        proof {
            if let Item::Fact(app) = self {
                lemma_without_nothing(app.variables());
            }
        }
        collector.names
    }
}

/// Adding one list of names, then another, adds their concatenation.
pub proof fn lemma_add_distinct_concat(found: Seq<Variable>, a: Seq<Variable>, b: Seq<Variable>)
    ensures
        add_distinct(found, a + b) == add_distinct(add_distinct(found, a), b),
    decreases b.len(),
{
    if b.len() == 0 {
        assert(a + b =~= a);
    } else {
        assert((a + b).drop_last() =~= a + b.drop_last());
        assert((a + b).last() == b.last());
        lemma_add_distinct_concat(found, a, b.drop_last());
    }
}

/// Leaving out the names of a concatenation leaves them out of each part.
pub proof fn lemma_without_concat(a: Seq<Variable>, b: Seq<Variable>, bound: Seq<Variable>)
    ensures
        without(a + b, bound) == without(a, bound) + without(b, bound),
    decreases b.len(),
{
    if b.len() == 0 {
        assert(a + b =~= a);
        assert(without(a, bound) + without(b, bound) =~= without(a, bound));
    } else {
        assert((a + b).drop_last() =~= a + b.drop_last());
        assert((a + b).last() == b.last());
        lemma_without_concat(a, b.drop_last(), bound);
        if !bound.contains(b.last()) {
            assert(without(a, bound) + without(b, bound) =~= (without(a, bound) + without(
                b.drop_last(),
                bound,
            )).push(b.last()));
        }
    }
}

/// With no name bound, no name is left out.
pub proof fn lemma_without_nothing(names: Seq<Variable>)
    ensures
        without(names, Seq::empty()) == names,
    decreases names.len(),
{
    if names.len() > 0 {
        lemma_without_nothing(names.drop_last());
        assert(!Seq::<Variable>::empty().contains(names.last()));
        assert(names.drop_last().push(names.last()) =~= names);
    }
}

/// What `add_distinct` holds: the names it started from and those added.
pub proof fn lemma_add_distinct_contains(found: Seq<Variable>, names: Seq<Variable>, v: Variable)
    ensures
        add_distinct(found, names).contains(v) <==> found.contains(v) || names.contains(v),
    decreases names.len(),
{
    if names.len() > 0 {
        let rest = add_distinct(found, names.drop_last());
        lemma_add_distinct_contains(found, names.drop_last(), v);
        assert(names.drop_last().push(names.last()) =~= names);
        if names.contains(v) {
            let i = choose|i: int| 0 <= i < names.len() && names[i] == v;
            if i < names.len() - 1 {
                assert(names.drop_last()[i] == v);
            }
        }
        if names.drop_last().contains(v) {
            let i = choose|i: int| 0 <= i < names.drop_last().len() && names.drop_last()[i] == v;
            assert(names[i] == v);
        }
        if !rest.contains(names.last()) {
            if rest.push(names.last()).contains(v) {
                let i = choose|i: int|
                    0 <= i < rest.push(names.last()).len() && rest.push(names.last())[i] == v;
                if i < rest.len() {
                    assert(rest[i] == v);
                } else {
                    assert(names[names.len() - 1] == v);
                }
            }
            if rest.contains(v) {
                let i = choose|i: int| 0 <= i < rest.len() && rest[i] == v;
                assert(rest.push(names.last())[i] == v);
            }
            if v == names.last() {
                assert(rest.push(names.last())[rest.len() as int] == v);
                assert(names[names.len() - 1] == v);
            }
        } else {
            if v == names.last() {
                assert(names[names.len() - 1] == v);
            }
        }
    }
}

/// The state of a walk that collects free variables: the names bound around
/// the place of the walk, the names found so far, and the set of the names
/// found, by which a name is found again.
struct Collector {
    bound: Vec<Variable>,
    names: Vec<Variable>,
    seen: HashSet<u64>,
}

impl Collector {
    /// The set holds the names found, and no other.
    spec fn well_formed(&self) -> bool {
        forall|v: Variable| self.seen@.contains(v.id) <==> self.names@.contains(v)
    }

    /// The names found so far, in the order in which they were found.
    spec fn found(&self) -> Seq<Variable> {
        self.names@
    }

    /// A walk that has found nothing, with no name bound around it.
    fn new() -> (c: Collector)
        ensures
            c.well_formed(),
            c.bound@ == Seq::<Variable>::empty(),
            c.names@ == Seq::<Variable>::empty(),
    {
        Collector { bound: Vec::new(), names: Vec::new(), seen: HashSet::new() }
    }

    /// Tests whether a quantifier around the place of the walk binds `v`.
    fn is_bound(&self, v: Variable) -> (b: bool)
        ensures
            b == self.bound@.contains(v),
    {
        let mut i: usize = 0;
        while i < self.bound.len()
            invariant
                i <= self.bound.len(),
                forall|j: int| 0 <= j < i ==> self.bound@[j] != v,
            decreases self.bound.len() - i,
        {
            if self.bound[i].id == v.id {
                return true;
            }
            i = i + 1;
        }
        false
    }

    /// Takes note of one occurrence of `v`.
    fn visit_variable(&mut self, v: Variable)
        requires
            old(self).well_formed(),
        ensures
            final(self).well_formed(),
            final(self).bound@ == old(self).bound@,
            final(self).names@ == add_distinct(old(self).names@, without(seq![v], old(self).bound@)),
    {
        broadcast use vstd::std_specs::hash::group_hash_axioms;

        let ghost one = seq![v];
        assert(one.drop_last() =~= Seq::<Variable>::empty());
        assert(one.last() == v);
        assert(without(one.drop_last(), self.bound@) =~= Seq::<Variable>::empty());
        if self.is_bound(v) {
            assert(without(one, self.bound@) == Seq::<Variable>::empty());
        } else {
            assert(without(one, self.bound@) =~= one);
            assert(add_distinct(self.names@, one.drop_last()) == self.names@);
            if self.seen.insert(v.id) {
                assert(!old(self).names@.contains(v));
                self.names.push(v);
                assert forall|w: Variable| self.seen@.contains(w.id) <==> self.names@.contains(
                    w,
                ) by {
                    if w == v {
                        assert(self.names@[self.names@.len() - 1] == w);
                    } else {
                        if old(self).names@.contains(w) {
                            let i = choose|i: int|
                                0 <= i < old(self).names@.len() && old(self).names@[i] == w;
                            assert(self.names@[i] == w);
                        }
                        if self.names@.contains(w) {
                            let i = choose|i: int| 0 <= i < self.names@.len() && self.names@[i] == w;
                            assert(old(self).names@[i] == w);
                        }
                    }
                }
            } else {
                assert(old(self).names@.contains(v));
            }
        }
    }

    /// Takes note of the variables of `app`.
    fn visit_application(&mut self, app: &Application)
        requires
            old(self).well_formed(),
        ensures
            final(self).well_formed(),
            final(self).bound@ == old(self).bound@,
            final(self).names@ == add_distinct(
                old(self).names@,
                without(app.variables(), old(self).bound@),
            ),
        decreases app,
    {
        let mut i: usize = 0;
        assert(without(variables_upto(*app, 0), self.bound@) =~= Seq::<Variable>::empty());
        while i < app.args.len()
            invariant
                i <= app.args.len(),
                self.well_formed(),
                self.bound@ == old(self).bound@,
                self.names@ == add_distinct(
                    old(self).names@,
                    without(variables_upto(*app, i as nat), old(self).bound@),
                ),
            decreases app.args.len() - i,
        {
            let ghost before = self.names@;
            let ghost so_far = variables_upto(*app, i as nat);
            match &app.args[i] {
                Value::Variable(v) => {
                    self.visit_variable(*v);
                },
                Value::Application(inner) => {
                    self.visit_application(inner);
                },
                _ => {
                    assert(without(Seq::<Variable>::empty(), self.bound@)
                        =~= Seq::<Variable>::empty());
                },
            }
            proof {
                let here = value_variables(app.args@[i as int]);
                assert(self.names@ == add_distinct(before, without(here, self.bound@)));
                lemma_without_concat(so_far, here, self.bound@);
                lemma_add_distinct_concat(
                    old(self).names@,
                    without(so_far, self.bound@),
                    without(here, self.bound@),
                );
            }
            i = i + 1;
        }
    }

    /// Takes note of the free variables of `fact`.
    fn visit_fact(&mut self, fact: &Fact)
        requires
            old(self).well_formed(),
        ensures
            final(self).well_formed(),
            final(self).bound@ == old(self).bound@,
            final(self).names@ == add_distinct(
                old(self).names@,
                fact.free_variables(old(self).bound@),
            ),
        decreases fact,
    {
        match &*fact.data {
            FactData::And(a, b) | FactData::Or(a, b) | FactData::Implication(a, b) => {
                self.visit_fact(a);
                self.visit_fact(b);
                proof {
                    lemma_add_distinct_concat(
                        old(self).names@,
                        a.free_variables(old(self).bound@),
                        b.free_variables(old(self).bound@),
                    );
                }
            },
            FactData::ForAll(v, body) | FactData::Exists(v, body) => {
                self.bound.push(*v);
                self.visit_fact(body);
                self.bound.pop();
                assert(self.bound@ =~= old(self).bound@);
            },
            FactData::Apply(app) => {
                self.visit_application(app);
            },
        }
    }
}

} // verus!
