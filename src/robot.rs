//! A robot's observed state and the affordability queries the planner asks.
use vstd::prelude::*;
use crate::module::{zone_of_name, Module};
use crate::molecules::{token_counts, Counts, Molecule, Molecules};
use crate::token::{int_in, parse_int_in};
use crate::sample::{priority, Sample, SampleHealth, SampleRank};

verus! {

/// The most samples a robot can hold.
pub const MAX_SAMPLES: usize = 3;

/// The most molecules a robot can carry.
pub const MAX_MOLECULES: i32 = 10;

/// Total expertise from which rank 2 samples are asked for.
pub const EXPERTISE_UNTIL_MIDDLE_RANK: i32 = 3;

/// Total expertise from which rank 3 samples are asked for.
pub const EXPERTISE_UNTIL_HIGH_RANK: i32 = 9;

/// Where `x` enters a sequence kept in descending priority: after every
/// leading sample whose priority is at least that of `x`.
pub open spec fn insert_pos(sorted: Seq<Sample>, x: Sample) -> int
    decreases sorted.len(),
{
    if sorted.len() == 0 {
        0
    } else if priority(sorted[0]) < priority(x) {
        0
    } else {
        1 + insert_pos(sorted.drop_first(), x)
    }
}

/// The samples stably sorted by descending priority.
pub open spec fn by_priority(s: Seq<Sample>) -> Seq<Sample>
    decreases s.len(),
{
    if s.len() == 0 {
        s
    } else {
        let r = by_priority(s.drop_last());
        r.insert(insert_pos(r, s.last()), s.last())
    }
}

/// What a sample still costs once expertise is taken off.
pub open spec fn effective_cost(s: Sample, expertise: Counts) -> Counts {
    s.cost()@.minus(expertise)
}

/// The sample can be produced from the inventory as it is.
pub open spec fn can_fully_afford(s: Sample, inventory: Counts, expertise: Counts) -> bool {
    effective_cost(s, expertise).minus(inventory).all_non_positive()
}

/// What is missing for the sample after expertise and inventory.
pub open spec fn shortfall(s: Sample, inventory: Counts, expertise: Counts) -> Counts {
    s.cost()@.minus(expertise.plus(inventory))
}

/// The sample can be produced once the missing molecules are fetched from
/// the shared pool, within the carrying capacity.
pub open spec fn can_eventually_afford(
    s: Sample,
    inventory: Counts,
    expertise: Counts,
    available: Counts,
) -> bool {
    let need = shortfall(s, inventory, expertise);
    need.all_non_positive() || (need.clamped().total() + inventory.total()
        <= MAX_MOLECULES as int && available.covers(need.clamped()))
}

/// The sequential reservation pass over `order`: each sample in turn must
/// be covered by what is still reserved, and then consumes its effective
/// cost from it and adds its gain to the running expertise.
pub open spec fn completes_all(order: Seq<Sample>, reserved: Counts, expertise: Counts) -> bool
    decreases order.len(),
{
    if order.len() == 0 {
        true
    } else {
        let eff = effective_cost(order[0], expertise);
        if eff.minus(reserved).all_non_positive() {
            completes_all(
                order.drop_first(),
                reserved.minus(eff.clamped()),
                expertise.plus(order[0].gain()@),
            )
        } else {
            false
        }
    }
}

/// The reservation pass that picks the next molecule to fetch: a sample
/// that is covered consumes its share as in [`completes_all`]; the first one
/// that is not, and whose whole shortfall the pool holds and the capacity
/// admits, gives its first missing kind; any other is skipped.
pub open spec fn next_molecule(
    order: Seq<Sample>,
    reserved: Counts,
    expertise: Counts,
    carried: int,
    available: Counts,
) -> Option<Molecule>
    decreases order.len(),
{
    if order.len() == 0 {
        None
    } else {
        let eff = effective_cost(order[0], expertise);
        let need = eff.minus(reserved);
        if need.all_non_positive() {
            next_molecule(
                order.drop_first(),
                reserved.minus(eff.clamped()),
                expertise.plus(order[0].gain()@),
                carried,
                available,
            )
        } else if available.covers(need.clamped()) && need.clamped().total() + carried
            <= MAX_MOLECULES as int {
            need.first_positive()
        } else {
            next_molecule(order.drop_first(), reserved, expertise, carried, available)
        }
    }
}

/// The first researched sample of `order` that can be produced right now.
pub open spec fn first_ready(order: Seq<Sample>, inventory: Counts, expertise: Counts) -> Option<
    Sample,
>
    decreases order.len(),
{
    if order.len() == 0 {
        None
    } else if order[0].is_researched() && can_fully_afford(order[0], inventory, expertise) {
        Some(order[0])
    } else {
        first_ready(order.drop_first(), inventory, expertise)
    }
}

/// The first sample of `held`, in held order, that is not researched.
pub open spec fn first_unresearched(held: Seq<Sample>) -> Option<Sample>
    decreases held.len(),
{
    if held.len() == 0 {
        None
    } else if !held[0].is_researched() {
        Some(held[0])
    } else {
        first_unresearched(held.drop_first())
    }
}

/// The total requirement of the projects still unmet by `expertise`: the
/// sum over the projects of what each asks for beyond it.
pub open spec fn unmet(projects: Seq<Molecules>, expertise: Counts) -> Counts
    decreases projects.len(),
{
    if projects.len() == 0 {
        Counts::zero()
    } else {
        unmet(projects.drop_last(), expertise).plus(projects.last()@.minus(expertise).clamped())
    }
}

/// There are projects, and subtracting the sample's gain from their unmet
/// requirement leaves no negative component.
pub open spec fn is_irrelevant(s: Sample, projects: Seq<Molecules>, expertise: Counts) -> bool {
    projects.len() > 0 && unmet(projects, expertise).covers(s.gain()@)
}

/// A held sample to give back: it can never be produced, or it is
/// irrelevant to the projects.
pub open spec fn is_discardable(
    s: Sample,
    inventory: Counts,
    expertise: Counts,
    available: Counts,
    projects: Seq<Molecules>,
) -> bool {
    !can_eventually_afford(s, inventory, expertise, available) || is_irrelevant(
        s,
        projects,
        expertise,
    )
}

/// The rank of sample to ask for, by total expertise.
pub open spec fn rank_for_expertise(total: int) -> SampleRank {
    if total < EXPERTISE_UNTIL_MIDDLE_RANK as int {
        SampleRank::LittleHealth
    } else if total < EXPERTISE_UNTIL_HIGH_RANK as int {
        SampleRank::SomeHealth
    } else {
        SampleRank::LotsOfHealth
    }
}

/// The sample a reference points to, if any.
pub open spec fn copied(o: Option<&Sample>) -> Option<Sample> {
    match o {
        Some(s) => Some(*s),
        None => None,
    }
}

/// The samples the references point to, in order.
pub open spec fn derefs(v: Seq<&Sample>) -> Seq<Sample> {
    v.map_values(|s: &Sample| *s)
}

fn priority_value(s: &Sample) -> (r: u8)
    ensures
        r as int == priority(*s),
{
    match s.get_health() {
        SampleHealth::Researched(h) => *h,
        SampleHealth::Unresearched => 0,
    }
}

proof fn lemma_insert_pos_bounds(sorted: Seq<Sample>, x: Sample)
    ensures
        0 <= insert_pos(sorted, x) <= sorted.len(),
    decreases sorted.len(),
{
    if sorted.len() > 0 {
        lemma_insert_pos_bounds(sorted.drop_first(), x);
    }
}

/// Sorting keeps the length and takes every element from the input.
pub proof fn lemma_by_priority_elements(s: Seq<Sample>)
    ensures
        by_priority(s).len() == s.len(),
        forall|j: int| 0 <= j < s.len() ==> s.contains(#[trigger] by_priority(s)[j]),
    decreases s.len(),
{
    if s.len() > 0 {
        let t = s.drop_last();
        lemma_by_priority_elements(t);
        let r = by_priority(t);
        lemma_insert_pos_bounds(r, s.last());
        let p = insert_pos(r, s.last());
        assert forall|j: int| 0 <= j < s.len() implies s.contains(#[trigger] by_priority(s)[j]) by {
            if j < p {
                assert(by_priority(s)[j] == r[j]);
                assert(t.contains(r[j]));
                let k = choose|k: int| 0 <= k < t.len() && t[k] == r[j];
                assert(s[k] == r[j]);
            } else if j == p {
                assert(s[s.len() - 1] == s.last());
            } else {
                assert(by_priority(s)[j] == r[j - 1]);
                assert(t.contains(r[j - 1]));
                let k = choose|k: int| 0 <= k < t.len() && t[k] == r[j - 1];
                assert(s[k] == r[j - 1]);
            }
        }
    }
}

proof fn lemma_insert_pos_order(sorted: Seq<Sample>, x: Sample)
    ensures
        forall|q: int|
            0 <= q < insert_pos(sorted, x) ==> priority(#[trigger] sorted[q]) >= priority(x),
        insert_pos(sorted, x) < sorted.len() ==> priority(sorted[insert_pos(sorted, x)])
            < priority(x),
    decreases sorted.len(),
{
    if sorted.len() > 0 && priority(sorted[0]) >= priority(x) {
        let rest = sorted.drop_first();
        lemma_insert_pos_order(rest, x);
        lemma_insert_pos_bounds(rest, x);
        assert forall|q: int| 0 <= q < insert_pos(sorted, x) implies priority(
            #[trigger] sorted[q],
        ) >= priority(x) by {
            if q > 0 {
                assert(sorted[q] == rest[q - 1]);
            }
        }
        if insert_pos(sorted, x) < sorted.len() {
            assert(sorted[insert_pos(sorted, x)] == rest[insert_pos(rest, x)]);
        }
    }
}

/// Sorting by priority orders the samples by descending priority.
pub proof fn lemma_by_priority_sorted(s: Seq<Sample>)
    ensures
        forall|i: int, j: int|
            0 <= i < j < by_priority(s).len() ==> priority(#[trigger] by_priority(s)[i])
                >= priority(#[trigger] by_priority(s)[j]),
    decreases s.len(),
{
    if s.len() > 0 {
        let t = s.drop_last();
        let x = s.last();
        lemma_by_priority_sorted(t);
        let r = by_priority(t);
        lemma_insert_pos_bounds(r, x);
        lemma_insert_pos_order(r, x);
        let p = insert_pos(r, x);
        let rs = by_priority(s);
        assert(rs == r.insert(p, x));
        assert forall|i: int, j: int| 0 <= i < j < rs.len() implies priority(#[trigger] rs[i])
            >= priority(#[trigger] rs[j]) by {
            if j < p {
                assert(rs[i] == r[i] && rs[j] == r[j]);
            } else if j == p {
                assert(rs[i] == r[i]);
            } else if i < p {
                assert(rs[i] == r[i] && rs[j] == r[j - 1]);
            } else if i == p {
                assert(rs[j] == r[j - 1]);
                assert(priority(r[p]) >= priority(r[j - 1]) || p == j - 1);
            } else {
                assert(rs[i] == r[i - 1] && rs[j] == r[j - 1]);
            }
        }
    }
}

/// Sorting by priority neither loses nor adds a sample.
pub proof fn lemma_by_priority_permutes(s: Seq<Sample>)
    ensures
        by_priority(s).to_multiset() == s.to_multiset(),
    decreases s.len(),
{
    broadcast use vstd::seq_lib::to_multiset_build, vstd::seq_lib::to_multiset_insert;

    if s.len() > 0 {
        let t = s.drop_last();
        lemma_by_priority_permutes(t);
        let r = by_priority(t);
        lemma_insert_pos_bounds(r, s.last());
        assert(s =~= t.push(s.last()));
    }
}

/// The tokens of a robot line: zone, eta, score, five inventory counts and
/// five expertise counts.
pub open spec fn robot_tokens_ok(t: Seq<&str>) -> bool {
    &&& t.len() >= 13
    &&& zone_of_name(t[0]@) is Some
    &&& int_in(t[1]@, u8::MIN as int, u8::MAX as int) is Some
    &&& int_in(t[2]@, i16::MIN as int, i16::MAX as int) is Some
    &&& token_counts(t.subrange(3, 8)) is Some
    &&& token_counts(t.subrange(8, 13)) is Some
}

/// The samples of priority `p`.
pub open spec fn has_priority(p: int) -> spec_fn(Sample) -> bool {
    |x: Sample| priority(x) == p
}

proof fn lemma_filter_none(s: Seq<Sample>, p: int)
    requires
        forall|k: int| 0 <= k < s.len() ==> priority(#[trigger] s[k]) != p,
    ensures
        s.filter(has_priority(p)) == Seq::<Sample>::empty(),
    decreases s.len(),
{
    reveal(Seq::filter);
    if s.len() > 0 {
        lemma_filter_none(s.drop_last(), p);
        assert(s.filter(has_priority(p)) =~= Seq::<Sample>::empty());
    } else {
        assert(s.filter(has_priority(p)) =~= Seq::<Sample>::empty());
    }
}

/// Sorting by priority is stable: the samples of any one priority come out
/// in the order they went in.
pub proof fn lemma_by_priority_stable(s: Seq<Sample>, p: int)
    ensures
        by_priority(s).filter(has_priority(p)) == s.filter(has_priority(p)),
    decreases s.len(),
{
    broadcast use vstd::seq::Seq::filter_distributes_over_add;

    if s.len() > 0 {
        let f = has_priority(p);
        let t = s.drop_last();
        let x = s.last();
        lemma_by_priority_stable(t, p);
        lemma_by_priority_sorted(t);
        let r = by_priority(t);
        lemma_insert_pos_bounds(r, x);
        lemma_insert_pos_order(r, x);
        let pos = insert_pos(r, x);
        let front = r.subrange(0, pos);
        let back = r.subrange(pos, r.len() as int);
        assert(r =~= front + back);
        assert(by_priority(s) =~= front + seq![x] + back);
        reveal_with_fuel(Seq::filter, 2);
        assert(seq![x].drop_last() =~= Seq::<Sample>::empty());
        if f(x) {
            assert forall|k: int| 0 <= k < back.len() implies priority(#[trigger] back[k]) != p by {
                assert(back[k] == r[pos + k]);
                if k > 0 {
                    assert(priority(r[pos]) >= priority(r[pos + k]));
                }
            }
            lemma_filter_none(back, p);
            assert(seq![x].filter(f) =~= seq![x]);
            assert(by_priority(s).filter(f) =~= r.filter(f).push(x));
        } else {
            assert(seq![x].filter(f) =~= Seq::<Sample>::empty());
            assert(by_priority(s).filter(f) =~= r.filter(f));
        }
    }
}

/// A robot's state as observed in one turn.
#[derive(Debug)]
pub struct Robot {
    location: Module,
    eta: u8,
    score: i16,
    inventory: Molecules,
    expertise: Molecules,
    held_samples: Vec<Sample>,
}

impl Robot {
    pub closed spec fn location(&self) -> Module {
        self.location
    }

    pub closed spec fn eta(&self) -> u8 {
        self.eta
    }

    pub closed spec fn inventory(&self) -> Counts {
        self.inventory@
    }

    pub closed spec fn expertise(&self) -> Counts {
        self.expertise@
    }

    pub closed spec fn held(&self) -> Seq<Sample> {
        self.held_samples@
    }

    /// At most three held samples, and every count within the range a
    /// turn's input can carry.
    pub open spec fn wf(&self) -> bool {
        &&& self.held().len() <= MAX_SAMPLES
        &&& self.inventory().in_i8_range()
        &&& self.expertise().in_i8_range()
        &&& forall|i: int| 0 <= i < self.held().len() ==> (#[trigger] self.held()[i]).wf()
    }

    pub fn get_held_samples(&self) -> (r: &Vec<Sample>)
        ensures
            r@ == self.held(),
    {
        &self.held_samples
    }

    pub fn append_sample(&mut self, sample: Sample)
        requires
            old(self).wf(),
            old(self).held().len() < MAX_SAMPLES,
            sample.wf(),
        ensures
            final(self).wf(),
            final(self).held() == old(self).held().push(sample),
            final(self).location() == old(self).location(),
            final(self).eta() == old(self).eta(),
            final(self).inventory() == old(self).inventory(),
            final(self).expertise() == old(self).expertise(),
    {
        self.held_samples.push(sample);
        assert(forall|i: int| 0 <= i < old(self).held().len() ==> self.held()[i] == old(self).held()[i]);
    }

    pub fn get_eta(&self) -> (r: u8)
        ensures
            r == self.eta(),
    {
        self.eta
    }

    pub fn get_location(&self) -> (r: &Module)
        ensures
            *r == self.location(),
    {
        &self.location
    }

    pub fn get_inventory(&self) -> (r: &Molecules)
        ensures
            r@ == self.inventory(),
    {
        &self.inventory
    }

    pub fn get_expertise(&self) -> (r: &Molecules)
        ensures
            r@ == self.expertise(),
    {
        &self.expertise
    }

    /// A robot at the start position, with nothing carried or learned.
    pub fn new() -> (r: Self)
        ensures
            r.wf(),
            r.location() == Module::Spawn,
            r.eta() == 0,
            r.inventory() == Counts::zero(),
            r.expertise() == Counts::zero(),
            r.held() == Seq::<Sample>::empty(),
    {
        Robot {
            location: Module::Spawn,
            eta: 0,
            score: 0,
            inventory: Molecules::new(),
            expertise: Molecules::new(),
            held_samples: Vec::new(),
        }
    }

    /// A robot with the given state and no held samples yet.
    pub fn from_state(
        location: Module,
        eta: u8,
        score: i16,
        inventory: Molecules,
        expertise: Molecules,
    ) -> (r: Self)
        requires
            inventory@.in_i8_range(),
            expertise@.in_i8_range(),
        ensures
            r.wf(),
            r.location() == location,
            r.eta() == eta,
            r.inventory() == inventory@,
            r.expertise() == expertise@,
            r.held() == Seq::<Sample>::empty(),
    {
        Robot { location, eta, score, inventory, expertise, held_samples: Vec::new() }
    }
}


impl Robot {
    /// The held samples, stably sorted by descending priority.
    pub fn get_sorted_samples(&self) -> (r: Vec<&Sample>)
        ensures
            derefs(r@) == by_priority(self.held()),
    {
        let mut sorted: Vec<&Sample> = Vec::new();
        let n = self.held_samples.len();
        let mut i: usize = 0;
        while i < n
            invariant
                i <= n,
                n == self.held().len(),
                derefs(sorted@) == by_priority(self.held().subrange(0, i as int)),
            decreases n - i,
        {
            let x = &self.held_samples[i];
            let px = priority_value(x);
            let ghost before = derefs(sorted@);
            proof {
                lemma_by_priority_elements(self.held().subrange(0, i as int));
            }
            let mut p: usize = 0;
            assert(before.subrange(0, before.len() as int) =~= before);
            while p < sorted.len() && priority_value(sorted[p]) >= px
                invariant
                    p <= sorted.len(),
                    before == derefs(sorted@),
                    px as int == priority(*x),
                    insert_pos(before, *x) == p + insert_pos(
                        before.subrange(p as int, before.len() as int),
                        *x,
                    ),
                decreases sorted.len() - p,
            {
                let ghost rest = before.subrange(p as int, before.len() as int);
                assert(rest.drop_first() =~= before.subrange(p + 1, before.len() as int));
                assert(rest[0] == before[p as int]);
                p += 1;
            }
            proof {
                let rest = before.subrange(p as int, before.len() as int);
                if p < before.len() {
                    assert(rest[0] == before[p as int]);
                }
                assert(insert_pos(before, *x) == p);
                let next = self.held().subrange(0, i + 1);
                assert(next.drop_last() =~= self.held().subrange(0, i as int));
                assert(next.last() == *x);
            }
            sorted.insert(p, x);
            assert(derefs(sorted@) =~= before.insert(p as int, *x));
            i += 1;
        }
        assert(self.held().subrange(0, n as int) =~= self.held());
        sorted
    }
}


impl Robot {
    proof fn lemma_sorted_wf(&self)
        requires
            self.wf(),
        ensures
            by_priority(self.held()).len() == self.held().len(),
            forall|j: int|
                0 <= j < self.held().len() ==> (#[trigger] by_priority(self.held())[j]).wf(),
    {
        lemma_by_priority_elements(self.held());
        assert forall|j: int| 0 <= j < self.held().len() implies (#[trigger] by_priority(
            self.held(),
        )[j]).wf() by {
            assert(self.held().contains(by_priority(self.held())[j]));
        }
    }

    /// Every held sample can be completed, in priority order, from the
    /// inventory alone (the sequential reservation pass).
    pub fn has_enough_molecules(&self) -> (r: bool)
        requires
            self.wf(),
        ensures
            r == completes_all(by_priority(self.held()), self.inventory(), self.expertise()),
    {
        let sorted = self.get_sorted_samples();
        let ghost order = derefs(sorted@);
        proof {
            self.lemma_sorted_wf();
        }
        let mut held_molecules = self.inventory;
        let mut accumulated_expertise = self.expertise;
        let n = sorted.len();
        let mut i: usize = 0;
        assert(order.subrange(0, n as int) =~= order);
        while i < n
            invariant
                n == sorted@.len() == order.len(),
                n <= MAX_SAMPLES,
                i <= n,
                order == derefs(sorted@),
                order == by_priority(self.held()),
                forall|j: int| 0 <= j < n ==> (#[trigger] order[j]).wf(),
                held_molecules@.in_i8_range(),
                accumulated_expertise@.within(-128 - 128 * i, 127 + 127 * i),
                completes_all(order, self.inventory(), self.expertise()) == completes_all(
                    order.subrange(i as int, n as int),
                    held_molecules@,
                    accumulated_expertise@,
                ),
            decreases n - i,
        {
            let sample = sorted[i];
            let ghost rest = order.subrange(i as int, n as int);
            assert(rest[0] == order[i as int]);
            assert(rest.drop_first() =~= order.subrange(i + 1, n as int));
            assert(order[i as int].wf());
            let eff = sample.get_cost().sub(&accumulated_expertise);
            let needed = eff.sub(&held_molecules);
            if needed.is_not_positive() {
                accumulated_expertise = accumulated_expertise.add(sample.get_expertise_gain());
                held_molecules = held_molecules.sub(&eff.set_minues_to_zero());
            } else {
                return false;
            }
            i += 1;
        }
        true
    }

    /// The next molecule to fetch: the reservation pass in priority order,
    /// skipping samples whose shortfall cannot be fetched.
    #[verifier::rlimit(40)]
    pub fn pick_best_molecule(&self, available: &Molecules) -> (r: Option<Molecule>)
        requires
            self.wf(),
            available@.in_i8_range(),
        ensures
            r == next_molecule(
                by_priority(self.held()),
                self.inventory(),
                self.expertise(),
                self.inventory().total(),
                available@,
            ),
    {
        let sorted = self.get_sorted_samples();
        let ghost order = derefs(sorted@);
        proof {
            self.lemma_sorted_wf();
        }
        let carried = self.inventory.len();
        let mut held_molecules = self.inventory;
        let mut accumulated_expertise = self.expertise;
        let n = sorted.len();
        let mut i: usize = 0;
        assert(order.subrange(0, n as int) =~= order);
        while i < n
            invariant
                n == sorted@.len() == order.len(),
                n <= MAX_SAMPLES,
                i <= n,
                order == derefs(sorted@),
                order == by_priority(self.held()),
                forall|j: int| 0 <= j < n ==> (#[trigger] order[j]).wf(),
                carried == self.inventory().total(),
                -640 <= carried <= 635,
                held_molecules@.in_i8_range(),
                accumulated_expertise@.within(-128 - 128 * i, 127 + 127 * i),
                next_molecule(
                    order,
                    self.inventory(),
                    self.expertise(),
                    self.inventory().total(),
                    available@,
                ) == next_molecule(
                    order.subrange(i as int, n as int),
                    held_molecules@,
                    accumulated_expertise@,
                    self.inventory().total(),
                    available@,
                ),
            decreases n - i,
        {
            let sample = sorted[i];
            let ghost rest = order.subrange(i as int, n as int);
            assert(rest[0] == order[i as int]);
            assert(rest.drop_first() =~= order.subrange(i + 1, n as int));
            assert(order[i as int].wf());
            let eff = sample.get_cost().sub(&accumulated_expertise);
            let needed = eff.sub(&held_molecules);
            if needed.is_not_positive() {
                accumulated_expertise = accumulated_expertise.add(sample.get_expertise_gain());
                held_molecules = held_molecules.sub(&eff.set_minues_to_zero());
            } else {
                let missing = needed.set_minues_to_zero();
                if available.has_enough(&missing) && missing.len() + carried <= MAX_MOLECULES {
                    return needed.get_next_molecule();
                }
            }
            i += 1;
        }
        None
    }

    /// The researched sample to produce now: the first, in priority order,
    /// that the inventory covers.
    pub fn get_most_interesting_ready_sample(&self) -> (r: Option<&Sample>)
        requires
            self.wf(),
        ensures
            copied(r) == first_ready(by_priority(self.held()), self.inventory(), self.expertise()),
    {
        let sorted = self.get_sorted_samples();
        let ghost order = derefs(sorted@);
        proof {
            self.lemma_sorted_wf();
        }
        let n = sorted.len();
        let mut i: usize = 0;
        assert(order.subrange(0, n as int) =~= order);
        while i < n
            invariant
                n == sorted@.len() == order.len(),
                i <= n,
                order == derefs(sorted@),
                order == by_priority(self.held()),
                forall|j: int| 0 <= j < n ==> (#[trigger] order[j]).wf(),
                self.wf(),
                first_ready(order, self.inventory(), self.expertise()) == first_ready(
                    order.subrange(i as int, n as int),
                    self.inventory(),
                    self.expertise(),
                ),
            decreases n - i,
        {
            let sample = sorted[i];
            let ghost rest = order.subrange(i as int, n as int);
            assert(rest[0] == order[i as int]);
            assert(rest.drop_first() =~= order.subrange(i + 1, n as int));
            assert(order[i as int].wf());
            let researched = match sample.get_health() {
                SampleHealth::Researched(_) => true,
                SampleHealth::Unresearched => false,
            };
            if researched && sample.get_cost().sub(&self.expertise).sub(&self.inventory).is_not_positive() {
                return Some(sample);
            }
            i += 1;
        }
        None
    }
}


impl Robot {
    /// The first held sample, in held order, that is not researched yet.
    pub fn get_unresearched_sample(&self) -> (r: Option<&Sample>)
        ensures
            copied(r) == first_unresearched(self.held()),
    {
        let n = self.held_samples.len();
        let mut i: usize = 0;
        assert(self.held().subrange(0, n as int) =~= self.held());
        while i < n
            invariant
                i <= n,
                n == self.held().len(),
                first_unresearched(self.held()) == first_unresearched(
                    self.held().subrange(i as int, n as int),
                ),
            decreases n - i,
        {
            let sample = &self.held_samples[i];
            let ghost rest = self.held().subrange(i as int, n as int);
            assert(rest[0] == self.held()[i as int]);
            assert(rest.drop_first() =~= self.held().subrange(i + 1, n as int));
            match sample.get_health() {
                SampleHealth::Unresearched => {
                    return Some(sample);
                },
                SampleHealth::Researched(_) => {},
            }
            i += 1;
        }
        None
    }

    pub fn has_maximum_samples(&self) -> (r: bool)
        ensures
            r == (self.held().len() >= MAX_SAMPLES),
    {
        self.held_samples.len() >= MAX_SAMPLES
    }

    /// The inventory is at full capacity.
    pub fn has_maximum_molecules(&self) -> (r: bool)
        requires
            self.wf(),
        ensures
            r == (self.inventory().total() == MAX_MOLECULES as int),
    {
        self.inventory.len() == MAX_MOLECULES
    }

    /// At least two samples are held.
    pub fn has_enough_samples(&self) -> (r: bool)
        ensures
            r == (self.held().len() >= 2),
    {
        self.held_samples.len() >= 2
    }

    /// Whether `sample` can be produced with the robot's expertise and
    /// inventory plus molecules fetched from `available`.
    pub fn can_produce_sample(&self, sample: &Sample, available: &Molecules) -> (r: bool)
        requires
            self.wf(),
            sample.wf(),
            available@.in_i8_range(),
        ensures
            r == can_eventually_afford(*sample, self.inventory(), self.expertise(), available@),
    {
        let needed_molecules = sample.get_cost().sub(&self.expertise.add(&self.inventory));
        if needed_molecules.is_not_positive() {
            return true;
        }
        let remaining_required_molecules = needed_molecules.set_minues_to_zero();
        if remaining_required_molecules.len() + self.inventory.len() > MAX_MOLECULES {
            return false;
        }
        available.has_enough(&remaining_required_molecules)
    }

    /// Some held sample can eventually be produced.
    pub fn can_produce_one_held_sample(&self, available: &Molecules) -> (r: bool)
        requires
            self.wf(),
            available@.in_i8_range(),
        ensures
            r == exists|i: int|
                0 <= i < self.held().len() && can_eventually_afford(
                    #[trigger] self.held()[i],
                    self.inventory(),
                    self.expertise(),
                    available@,
                ),
    {
        let n = self.held_samples.len();
        let mut i: usize = 0;
        while i < n
            invariant
                i <= n,
                n == self.held().len(),
                self.wf(),
                available@.in_i8_range(),
                forall|j: int|
                    0 <= j < i ==> !can_eventually_afford(
                        #[trigger] self.held()[j],
                        self.inventory(),
                        self.expertise(),
                        available@,
                    ),
            decreases n - i,
        {
            if self.can_produce_sample(&self.held_samples[i], available) {
                return true;
            }
            i += 1;
        }
        false
    }

    /// The rank of sample to ask for: 1 below a total expertise of 3, 2
    /// below 9, else 3.
    pub fn pick_sample_based_on_expertise(&self) -> (r: SampleRank)
        requires
            self.wf(),
        ensures
            r == rank_for_expertise(self.expertise().total()),
    {
        let total = self.expertise.len();
        if total < EXPERTISE_UNTIL_MIDDLE_RANK {
            SampleRank::LittleHealth
        } else if total < EXPERTISE_UNTIL_HIGH_RANK {
            SampleRank::SomeHealth
        } else {
            SampleRank::LotsOfHealth
        }
    }

    /// The held samples, in held order, that can never be produced.
    pub fn get_impossible_samples(&self, available: &Molecules) -> (r: Vec<&Sample>)
        requires
            self.wf(),
            available@.in_i8_range(),
        ensures
            derefs(r@) == self.held().filter(
                |s: Sample|
                    !can_eventually_afford(s, self.inventory(), self.expertise(), available@),
            ),
    {
        let ghost keep = |s: Sample|
            !can_eventually_afford(s, self.inventory(), self.expertise(), available@);
        let mut impossible: Vec<&Sample> = Vec::new();
        let n = self.held_samples.len();
        let mut i: usize = 0;
        while i < n
            invariant
                i <= n,
                n == self.held().len(),
                self.wf(),
                available@.in_i8_range(),
                keep == (|s: Sample|
                    !can_eventually_afford(s, self.inventory(), self.expertise(), available@)),
                derefs(impossible@) == self.held().subrange(0, i as int).filter(keep),
            decreases n - i,
        {
            let sample = &self.held_samples[i];
            proof {
                let next = self.held().subrange(0, i + 1);
                assert(next.drop_last() =~= self.held().subrange(0, i as int));
                assert(next.last() == *sample);
                reveal(Seq::filter);
            }
            if !self.can_produce_sample(sample, available) {
                impossible.push(sample);
                assert(derefs(impossible@) =~= self.held().subrange(0, i as int).filter(keep).push(*sample));
            }
            i += 1;
        }
        assert(self.held().subrange(0, n as int) =~= self.held());
        impossible
    }
}


proof fn lemma_unmet_non_negative(projects: Seq<Molecules>, expertise: Counts)
    ensures
        !unmet(projects, expertise).any_negative(),
    decreases projects.len(),
{
    if projects.len() > 0 {
        lemma_unmet_non_negative(projects.drop_last(), expertise);
    }
}

impl Robot {
    /// Whether `sample` is irrelevant to `projects` (see [`is_irrelevant`]).
    pub fn is_irrelevant_to_projects(&self, sample: &Sample, projects: &Vec<Molecules>) -> (r: bool)
        requires
            self.wf(),
            sample.wf(),
            forall|i: int| 0 <= i < projects@.len() ==> (#[trigger] projects@[i])@.in_i8_range(),
        ensures
            r == is_irrelevant(*sample, projects@, self.expertise()),
    {
        let n = projects.len();
        if n == 0 {
            return false;
        }
        let gain = sample.get_expertise_gain();
        let cap = gain.set_minues_to_zero();
        // What the projects' unmet requirement holds, counted up to the gain.
        let mut absorbed = Molecules::new();
        let mut i: usize = 0;
        assert(projects@.subrange(0, 0) =~= Seq::<Molecules>::empty());
        while i < n
            invariant
                i <= n,
                n == projects@.len(),
                self.wf(),
                sample.wf(),
                cap@ == gain@.clamped(),
                gain@ == sample.gain()@,
                forall|j: int| 0 <= j < projects@.len() ==> (#[trigger] projects@[j])@.in_i8_range(),
                absorbed@ == unmet(projects@.subrange(0, i as int), self.expertise()).min_with(
                    cap@,
                ),
            decreases n - i,
        {
            let ghost prefix = projects@.subrange(0, i + 1);
            assert(prefix.drop_last() =~= projects@.subrange(0, i as int));
            assert(prefix.last() == projects@[i as int]);
            let term = projects[i].sub(&self.expertise).set_minues_to_zero();
            absorbed = absorbed.add(&term).min_with(&cap);
            i += 1;
        }
        assert(projects@.subrange(0, n as int) =~= projects@);
        proof {
            lemma_unmet_non_negative(projects@, self.expertise());
        }
        absorbed.has_enough(gain)
    }

    /// The held samples, in held order, to give back (see
    /// [`is_discardable`]).
    pub fn get_discardable_samples(&self, available: &Molecules, projects: &Vec<Molecules>) -> (r:
        Vec<&Sample>)
        requires
            self.wf(),
            available@.in_i8_range(),
            forall|i: int| 0 <= i < projects@.len() ==> (#[trigger] projects@[i])@.in_i8_range(),
        ensures
            derefs(r@) == self.held().filter(
                |s: Sample|
                    is_discardable(s, self.inventory(), self.expertise(), available@, projects@),
            ),
    {
        let ghost keep = |s: Sample|
            is_discardable(s, self.inventory(), self.expertise(), available@, projects@);
        let mut discard: Vec<&Sample> = Vec::new();
        let n = self.held_samples.len();
        let mut i: usize = 0;
        while i < n
            invariant
                i <= n,
                n == self.held().len(),
                self.wf(),
                available@.in_i8_range(),
                forall|j: int| 0 <= j < projects@.len() ==> (#[trigger] projects@[j])@.in_i8_range(),
                keep == (|s: Sample|
                    is_discardable(s, self.inventory(), self.expertise(), available@, projects@)),
                derefs(discard@) == self.held().subrange(0, i as int).filter(keep),
            decreases n - i,
        {
            let sample = &self.held_samples[i];
            proof {
                let next = self.held().subrange(0, i + 1);
                assert(next.drop_last() =~= self.held().subrange(0, i as int));
                assert(next.last() == *sample);
                reveal(Seq::filter);
            }
            if !self.can_produce_sample(sample, available) || self.is_irrelevant_to_projects(
                sample,
                projects,
            ) {
                discard.push(sample);
                assert(derefs(discard@) =~= self.held().subrange(0, i as int).filter(keep).push(
                    *sample,
                ));
            }
            i += 1;
        }
        assert(self.held().subrange(0, n as int) =~= self.held());
        discard
    }
}


impl Robot {
    /// The robot a line's tokens describe, with no held samples yet; `None`
    /// when a token is missing or malformed.
    pub fn new_from_inputs(inputs: Vec<&str>) -> (r: Option<Self>)
        ensures
            r is Some <==> robot_tokens_ok(inputs@),
            r matches Some(robot) ==> {
                &&& robot.wf()
                &&& Some(robot.location()) == zone_of_name(inputs@[0]@)
                &&& int_in(inputs@[1]@, u8::MIN as int, u8::MAX as int) == Some(robot.eta() as int)
                &&& robot.inventory() == token_counts(inputs@.subrange(3, 8))->0@
                &&& robot.expertise() == token_counts(inputs@.subrange(8, 13))->0@
                &&& robot.held().len() == 0
            },
    {
        if inputs.len() < 13 {
            return None;
        }
        let location = match Module::from_str(inputs[0]) {
            Ok(m) => m,
            Err(_) => {
                return None;
            },
        };
        let eta = match parse_int_in(inputs[1], u8::MIN as i64, u8::MAX as i64) {
            Some(v) => v as u8,
            None => {
                return None;
            },
        };
        let score = match parse_int_in(inputs[2], i16::MIN as i64, i16::MAX as i64) {
            Some(v) => v as i16,
            None => {
                return None;
            },
        };
        let tokens = inputs.as_slice();
        let inventory = match Molecules::from_slice(vstd::slice::slice_subrange(tokens, 3, 8)) {
            Some(m) => m,
            None => {
                return None;
            },
        };
        let expertise = match Molecules::from_slice(vstd::slice::slice_subrange(tokens, 8, 13)) {
            Some(m) => m,
            None => {
                return None;
            },
        };
        Some(Robot { location, eta, score, inventory, expertise, held_samples: Vec::new() })
    }
}

} // verus!
