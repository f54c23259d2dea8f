//! The bindings a binding plan selects: each step's decisions name the
//! capability binding chosen for one requirement, with its environment
//! and the capability it provides. Authorization and binding happen once
//! per distinct binding, in binding-identity order.

use vstd::prelude::*;
use crate::keyed_map::KeyedMap;
use crate::providers::bind::ExecutionEnvironment;

verus! {

/// One binding decision: the binding selected, the environment it runs
/// in, and the capability required.
#[derive(Clone, Debug, PartialEq, Eq)]
pub struct BindingChoice {
    /// The selected capability binding's identity.
    pub binding: String,
    /// The environment the binding runs in.
    pub environment: ExecutionEnvironment,
    /// The capability the decision's requirement names.
    pub capability: String,
}

/// A decision as plain values.
pub open spec fn choice_view(c: BindingChoice) -> (Seq<char>, ExecutionEnvironment, Seq<char>) {
    (c.binding@, c.environment, c.capability@)
}

/// The decisions of all steps, step after step.
pub open spec fn flatten(steps: Seq<Vec<BindingChoice>>) -> Seq<BindingChoice>
    decreases steps.len(),
{
    if steps.len() == 0 {
        Seq::empty()
    } else {
        flatten(steps.drop_last()) + steps.last()@
    }
}

/// The first decision that selects `binding`, if any.
pub open spec fn first_choice(choices: Seq<BindingChoice>, binding: Seq<char>) -> Option<BindingChoice>
    decreases choices.len(),
{
    if choices.len() == 0 {
        None
    } else {
        match first_choice(choices.drop_last(), binding) {
            Some(c) => Some(c),
            None => if choices.last().binding@ == binding {
                Some(choices.last())
            } else {
                None
            },
        }
    }
}

/// `out` lists each binding the decisions select exactly once, in
/// binding-identity order, with the environment and capability of the
/// first decision that selects it.
pub open spec fn distinct_of(choices: Seq<BindingChoice>, out: Seq<BindingChoice>) -> bool {
    &&& forall|i: int, j: int| 0 <= i < j < out.len() ==> crate::text::key_lt(#[trigger] out[i].binding@, #[trigger] out[j].binding@)
    &&& forall|i: int| 0 <= i < out.len() ==> first_choice(choices, #[trigger] out[i].binding@) is Some
        && choice_view(first_choice(choices, out[i].binding@).unwrap()) == choice_view(out[i])
    &&& forall|b: Seq<char>| #[trigger] first_choice(choices, b) is Some ==> exists|i: int| 0 <= i < out.len() && out[i].binding@ == b
}

/// What the table holds after noting `choices`: each selected binding
/// once, with its first decision's environment and capability.
spec fn noted(table: KeyedMap<(ExecutionEnvironment, String)>, choices: Seq<BindingChoice>) -> bool {
    &&& table.wf()
    &&& forall|b: Seq<char>| #[trigger] table.contains(b) <==> first_choice(choices, b) is Some
    &&& forall|b: Seq<char>| table.contains(b) ==> {
        let c = first_choice(choices, b).unwrap();
        &&& (#[trigger] table.lookup(b)).unwrap().0 == c.environment
        &&& table.lookup(b).unwrap().1@ == c.capability@
    }
}

proof fn lemma_first_choice_selects(choices: Seq<BindingChoice>, b: Seq<char>)
    ensures
        first_choice(choices, b) is Some ==> first_choice(choices, b).unwrap().binding@ == b,
    decreases choices.len(),
{
    if choices.len() > 0 {
        lemma_first_choice_selects(choices.drop_last(), b);
    }
}

proof fn lemma_first_choice_push(choices: Seq<BindingChoice>, c: BindingChoice, b: Seq<char>)
    ensures
        first_choice(choices.push(c), b) == match first_choice(choices, b) {
            Some(f) => Some(f),
            None => if c.binding@ == b {
                Some(c)
            } else {
                None
            },
        },
{
    assert(choices.push(c).drop_last() =~= choices);
}

fn note_choice(table: &mut KeyedMap<(ExecutionEnvironment, String)>, c: &BindingChoice, Ghost(seen): Ghost<Seq<BindingChoice>>)
    requires
        noted(*old(table), seen),
    ensures
        noted(*final(table), seen.push(*c)),
{
    proof {
        assert forall|b: Seq<char>| true implies first_choice(seen.push(*c), b) == match first_choice(seen, b) {
            Some(f) => Some(f),
            None => if c.binding@ == b {
                Some(*c)
            } else {
                None
            },
        } by {
            lemma_first_choice_push(seen, *c, b);
        }
    }
    if !table.contains_key(&c.binding) {
        let _ = table.insert(c.binding.clone(), (c.environment, c.capability.clone()));
    }
}

fn table_choices(table: &KeyedMap<(ExecutionEnvironment, String)>, Ghost(choices): Ghost<Seq<BindingChoice>>) -> (r: Vec<BindingChoice>)
    requires
        noted(*table, choices),
    ensures
        distinct_of(choices, r@),
{
    let mut out: Vec<BindingChoice> = Vec::new();
    let mut i: usize = 0;
    while i < table.size()
        invariant
            noted(*table, choices),
            i <= table.len(),
            out@.len() == i,
            forall|t: int| 0 <= t < i ==> (#[trigger] out@[t]).binding@ == table.key(t) && out@[t].environment == table.value(t).0
                && out@[t].capability@ == table.value(t).1@,
        decreases table.len() - i,
    {
        let (environment, capability) = table.value_at(i);
        out.push(BindingChoice { binding: table.key_at(i).clone(), environment: *environment, capability: capability.clone() });
        i += 1;
    }
    proof {
        assert forall|i: int| 0 <= i < out@.len() implies first_choice(choices, #[trigger] out@[i].binding@) is Some
            && choice_view(first_choice(choices, out@[i].binding@).unwrap()) == choice_view(out@[i]) by {
            let b = table.key(i);
            table.lemma_unique_position(i, b);
            assert(table.contains(b));
            let c = first_choice(choices, b).unwrap();
            lemma_first_choice_selects(choices, b);
            assert(table.lookup(b).unwrap().0 == c.environment);
            assert(table.lookup(b).unwrap().1@ == c.capability@);
        }
        assert forall|b: Seq<char>| #[trigger] first_choice(choices, b) is Some implies exists|i: int| 0 <= i < out@.len() && out@[i].binding@ == b by {
            assert(table.contains(b));
            let i = choose|i: int| 0 <= i < table.len() && #[trigger] table.key(i) == b;
            assert(out@[i].binding@ == b);
        }
    }
    out
}

/// The distinct bindings a plan's steps select, in binding-identity
/// order, each with the environment and capability of its first decision.
pub fn distinct_bindings(steps: &Vec<Vec<BindingChoice>>) -> (r: Vec<BindingChoice>)
    ensures
        distinct_of(flatten(steps@), r@),
{
    let mut table: KeyedMap<(ExecutionEnvironment, String)> = KeyedMap::new();
    let mut s: usize = 0;
    while s < steps.len()
        invariant
            s <= steps@.len(),
            noted(table, flatten(steps@.take(s as int))),
        decreases steps@.len() - s,
    {
        let decisions = &steps[s];
        let ghost before = flatten(steps@.take(s as int));
        let mut d: usize = 0;
        while d < decisions.len()
            invariant
                d <= decisions@.len(),
                noted(table, before + decisions@.take(d as int)),
            decreases decisions@.len() - d,
        {
            note_choice(&mut table, &decisions[d], Ghost(before + decisions@.take(d as int)));
            assert((before + decisions@.take(d as int)).push(decisions@[d as int]) =~= before + decisions@.take(d + 1));
            d += 1;
        }
        assert(steps@.take(s + 1).drop_last() =~= steps@.take(s as int));
        assert(decisions@.take(d as int) =~= decisions@);
        assert(flatten(steps@.take(s + 1)) == before + decisions@);
        s += 1;
    }
    assert(steps@.take(s as int) =~= steps@);
    table_choices(&table, Ghost(flatten(steps@)))
}

/// The distinct bindings of a persisted decision map (decisions by node,
/// in node order), in binding-identity order, each with the environment
/// and capability of its first decision.
pub fn distinct_decision_bindings(decisions: &KeyedMap<Vec<BindingChoice>>) -> (r: Vec<BindingChoice>)
    ensures
        distinct_of(flatten(decisions.values()), r@),
{
    let mut table: KeyedMap<(ExecutionEnvironment, String)> = KeyedMap::new();
    let mut s: usize = 0;
    while s < decisions.size()
        invariant
            s <= decisions.len(),
            noted(table, flatten(decisions.values().take(s as int))),
        decreases decisions.len() - s,
    {
        let node_decisions = decisions.value_at(s);
        let ghost before = flatten(decisions.values().take(s as int));
        let mut d: usize = 0;
        while d < node_decisions.len()
            invariant
                d <= node_decisions@.len(),
                noted(table, before + node_decisions@.take(d as int)),
            decreases node_decisions@.len() - d,
        {
            note_choice(&mut table, &node_decisions[d], Ghost(before + node_decisions@.take(d as int)));
            assert((before + node_decisions@.take(d as int)).push(node_decisions@[d as int]) =~= before + node_decisions@.take(d + 1));
            d += 1;
        }
        assert(decisions.values().take(s + 1).drop_last() =~= decisions.values().take(s as int));
        assert(decisions.values().take(s + 1).last() == decisions.value(s as int));
        assert(node_decisions@.take(d as int) =~= node_decisions@);
        s += 1;
    }
    assert(decisions.values().take(s as int) =~= decisions.values());
    table_choices(&table, Ghost(flatten(decisions.values())))
}

} // verus!
