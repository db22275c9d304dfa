use vstd::prelude::*;

use crate::resources::AgentStatus;
use crate::str_map::same_text;

verus! {

/// The elements of `s` that `keep` accepts, in order.
pub open spec fn select<T>(s: Seq<T>, keep: spec_fn(T) -> bool) -> Seq<T>
    decreases s.len(),
{
    if s.len() == 0 {
        Seq::empty()
    } else if keep(s.last()) {
        select(s.drop_last(), keep).push(s.last())
    } else {
        select(s.drop_last(), keep)
    }
}

/// A contract between an agent and a company. The wage is carried in the caller's
/// number type `W` and never computed with here.
#[derive(Debug, Clone)]
pub struct Employment<W> {
    pub agent_id: String,
    pub company_id: String,
    pub role: String,
    pub wage: W,
    pub start_tick: u64,
    pub active: bool,
}

/// A company's offer of work. Wage and skill level are carried in the caller's number
/// type `W`.
#[derive(Debug, Clone)]
pub struct JobOffer<W> {
    pub company_id: String,
    pub role: String,
    pub wage: W,
    pub required_skill: String,
    pub min_skill_level: W,
    pub openings: u32,
}

/// All employment contracts, the open job offers and the running counts of hires,
/// firings and wages paid.
#[derive(Debug, Clone)]
pub struct LaborMarketState<W> {
    pub employments: Vec<Employment<W>>,
    pub job_openings: Vec<JobOffer<W>>,
    pub total_wages_paid: W,
    pub total_hires: u64,
    pub total_fires: u64,
}

pub open spec fn is_active<W>() -> spec_fn(Employment<W>) -> bool {
    |e: Employment<W>| e.active
}

pub open spec fn active_of_agent<W>(agent_id: Seq<char>) -> spec_fn(Employment<W>) -> bool {
    |e: Employment<W>| e.agent_id@ == agent_id && e.active
}

pub open spec fn active_of_company<W>(company_id: Seq<char>) -> spec_fn(Employment<W>) -> bool {
    |e: Employment<W>| e.company_id@ == company_id && e.active
}

/// The number of active contracts of a company.
pub open spec fn company_headcount<W>(s: Seq<Employment<W>>, company_id: Seq<char>) -> nat {
    select(s, active_of_company(company_id)).len()
}

/// Whether some active contract binds the agent.
pub open spec fn agent_employed<W>(s: Seq<Employment<W>>, agent_id: Seq<char>) -> bool {
    exists|i: int| 0 <= i < s.len() && (#[trigger] s[i]).agent_id@ == agent_id && s[i].active
}

/// The characters of each text, in order.
pub open spec fn texts(s: Seq<String>) -> Seq<Seq<char>> {
    s.map_values(|x: String| x@)
}

/// The agent of each contract, in order.
pub open spec fn agent_ids<W>(s: Seq<Employment<W>>) -> Seq<Seq<char>> {
    s.map_values(|e: Employment<W>| e.agent_id@)
}

/// No agent holds two active contracts.
pub open spec fn one_job_each<W>(s: Seq<Employment<W>>) -> bool {
    forall|i: int, j: int|
        0 <= i < s.len() && 0 <= j < s.len() && i != j && s[i].active && s[j].active ==> (#[trigger] s[i]).agent_id@
            != (#[trigger] s[j]).agent_id@
}

/// The sum of the openings of a list of offers.
pub open spec fn total_openings<W>(s: Seq<JobOffer<W>>) -> int
    decreases s.len(),
{
    if s.len() == 0 {
        0
    } else {
        total_openings(s.drop_last()) + s.last().openings as int
    }
}

/// Whether the contract at `i` is the first active one between the agent and the company.
pub open spec fn first_active_between<W>(s: Seq<Employment<W>>, agent_id: Seq<char>, company_id: Seq<char>, i: int) -> bool {
    &&& 0 <= i < s.len()
    &&& s[i].agent_id@ == agent_id && s[i].company_id@ == company_id && s[i].active
    &&& forall|j: int|
        0 <= j < i ==> !((#[trigger] s[j]).agent_id@ == agent_id && s[j].company_id@ == company_id && s[j].active)
}

/// `after` is `before` with its contract at `i` ended, and nothing else changed.
pub open spec fn ended_at<W>(before: Employment<W>, after: Employment<W>) -> bool {
    &&& after.agent_id == before.agent_id
    &&& after.company_id == before.company_id
    &&& after.role == before.role
    &&& after.wage == before.wage
    &&& after.start_tick == before.start_tick
    &&& !after.active
}

proof fn lemma_select_step<T>(s: Seq<T>, keep: spec_fn(T) -> bool, i: int)
    requires
        0 <= i < s.len(),
    ensures
        select(s.take(i + 1), keep) == if keep(s[i]) {
            select(s.take(i), keep).push(s[i])
        } else {
            select(s.take(i), keep)
        },
{
    assert(s.take(i + 1).drop_last() =~= s.take(i));
    assert(s.take(i + 1).last() == s[i]);
}

proof fn lemma_select_len<T>(s: Seq<T>, keep: spec_fn(T) -> bool)
    ensures
        select(s, keep).len() <= s.len(),
    decreases s.len(),
{
    if s.len() > 0 {
        lemma_select_len(s.drop_last(), keep);
    }
}

/// An element that `keep` accepts is kept, so a list with nothing selected holds no
/// accepted element.
proof fn lemma_select_empty<T>(s: Seq<T>, keep: spec_fn(T) -> bool)
    requires
        select(s, keep).len() == 0,
    ensures
        forall|i: int| 0 <= i < s.len() ==> !keep(#[trigger] s[i]),
    decreases s.len(),
{
    if s.len() > 0 {
        let p = s.drop_last();
        if keep(s.last()) {
            assert(select(s, keep).len() == select(p, keep).len() + 1);
        } else {
            lemma_select_empty(p, keep);
            assert forall|i: int| 0 <= i < s.len() implies !keep(#[trigger] s[i]) by {
                if i < p.len() {
                    assert(s[i] == p[i]);
                }
            }
        }
    }
}

impl<W> LaborMarketState<W> {
    /// A market with no contracts, no offers and nothing paid or counted yet.
    pub fn new() -> (m: Self) where W: Default
        ensures
            m.employments@.len() == 0,
            m.job_openings@.len() == 0,
            m.total_hires == 0,
            m.total_fires == 0,
            call_ensures(W::default, (), m.total_wages_paid),
    {
        LaborMarketState {
            employments: Vec::new(),
            job_openings: Vec::new(),
            total_wages_paid: W::default(),
            total_hires: 0,
            total_fires: 0,
        }
    }

    /// The active contracts, in order.
    pub fn active_employments(&self) -> (r: Vec<&Employment<W>>)
        ensures
            r@.map_values(|e: &Employment<W>| *e) == select(self.employments@, is_active()),
    {
        let mut r: Vec<&Employment<W>> = Vec::new();
        let mut i: usize = 0;
        while i < self.employments.len()
            invariant
                i <= self.employments@.len(),
                r@.map_values(|e: &Employment<W>| *e) == select(self.employments@.take(i as int), is_active()),
            decreases self.employments@.len() - i,
        {
            proof {
                lemma_select_step(self.employments@, is_active(), i as int);
            }
            let e = &self.employments[i];
            if e.active {
                r.push(e);
            }
            assert(r@.map_values(|e: &Employment<W>| *e) =~= select(
                self.employments@.take(i + 1),
                is_active(),
            ));
            i = i + 1;
        }
        assert(self.employments@.take(i as int) =~= self.employments@);
        r
    }

    /// The active contracts of an agent, in order.
    pub fn employments_for_agent(&self, agent_id: &str) -> (r: Vec<&Employment<W>>)
        ensures
            r@.map_values(|e: &Employment<W>| *e) == select(self.employments@, active_of_agent(agent_id@)),
    {
        let id = agent_id.to_owned();
        let mut r: Vec<&Employment<W>> = Vec::new();
        let mut i: usize = 0;
        while i < self.employments.len()
            invariant
                i <= self.employments@.len(),
                id@ == agent_id@,
                r@.map_values(|e: &Employment<W>| *e) == select(
                    self.employments@.take(i as int),
                    active_of_agent(agent_id@),
                ),
            decreases self.employments@.len() - i,
        {
            proof {
                lemma_select_step(self.employments@, active_of_agent(agent_id@), i as int);
            }
            let e = &self.employments[i];
            if e.agent_id == id && e.active {
                r.push(e);
            }
            assert(r@.map_values(|e: &Employment<W>| *e) =~= select(
                self.employments@.take(i + 1),
                active_of_agent(agent_id@),
            ));
            i = i + 1;
        }
        assert(self.employments@.take(i as int) =~= self.employments@);
        r
    }

    /// The active contracts of a company, in order.
    pub fn employments_for_company(&self, company_id: &str) -> (r: Vec<&Employment<W>>)
        ensures
            r@.map_values(|e: &Employment<W>| *e) == select(self.employments@, active_of_company(company_id@)),
    {
        let id = company_id.to_owned();
        let mut r: Vec<&Employment<W>> = Vec::new();
        let mut i: usize = 0;
        while i < self.employments.len()
            invariant
                i <= self.employments@.len(),
                id@ == company_id@,
                r@.map_values(|e: &Employment<W>| *e) == select(
                    self.employments@.take(i as int),
                    active_of_company(company_id@),
                ),
            decreases self.employments@.len() - i,
        {
            proof {
                lemma_select_step(self.employments@, active_of_company(company_id@), i as int);
            }
            let e = &self.employments[i];
            if e.company_id == id && e.active {
                r.push(e);
            }
            assert(r@.map_values(|e: &Employment<W>| *e) =~= select(
                self.employments@.take(i + 1),
                active_of_company(company_id@),
            ));
            i = i + 1;
        }
        assert(self.employments@.take(i as int) =~= self.employments@);
        r
    }

    /// The active contracts of a company, in order: those whose holders work for it.
    pub fn working_employees_for_company(&self, company_id: &str) -> (r: Vec<&Employment<W>>)
        ensures
            r@.map_values(|e: &Employment<W>| *e) == select(self.employments@, active_of_company(company_id@)),
    {
        self.employments_for_company(company_id)
    }

    pub fn is_agent_employed(&self, agent_id: &str) -> (r: bool)
        ensures
            r == agent_employed(self.employments@, agent_id@),
    {
        let id = agent_id.to_owned();
        let mut i: usize = 0;
        while i < self.employments.len()
            invariant
                i <= self.employments@.len(),
                id@ == agent_id@,
                forall|j: int| 0 <= j < i ==> !((#[trigger] self.employments@[j]).agent_id@ == agent_id@ && self.employments@[j].active),
            decreases self.employments@.len() - i,
        {
            if self.employments[i].agent_id == id && self.employments[i].active {
                return true;
            }
            i = i + 1;
        }
        false
    }

    pub fn is_agent_employed_at(&self, agent_id: &str, company_id: &str) -> (r: bool)
        ensures
            r == exists|i: int|
                0 <= i < self.employments@.len() && (#[trigger] self.employments@[i]).agent_id@ == agent_id@
                    && self.employments@[i].company_id@ == company_id@ && self.employments@[i].active,
    {
        let aid = agent_id.to_owned();
        let cid = company_id.to_owned();
        let mut i: usize = 0;
        while i < self.employments.len()
            invariant
                i <= self.employments@.len(),
                aid@ == agent_id@,
                cid@ == company_id@,
                forall|j: int|
                    0 <= j < i ==> !((#[trigger] self.employments@[j]).agent_id@ == agent_id@
                        && self.employments@[j].company_id@ == company_id@ && self.employments@[j].active),
            decreases self.employments@.len() - i,
        {
            let e = &self.employments[i];
            if e.agent_id == aid && e.company_id == cid && e.active {
                return true;
            }
            i = i + 1;
        }
        false
    }

    /// The number of active contracts of a company.
    pub fn employee_count_for_company(&self, company_id: &str) -> (r: usize)
        ensures
            r == company_headcount(self.employments@, company_id@),
    {
        let id = company_id.to_owned();
        let mut count: usize = 0;
        let mut i: usize = 0;
        while i < self.employments.len()
            invariant
                i <= self.employments@.len(),
                id@ == company_id@,
                count == select(self.employments@.take(i as int), active_of_company(company_id@)).len(),
            decreases self.employments@.len() - i,
        {
            proof {
                lemma_select_step(self.employments@, active_of_company(company_id@), i as int);
                lemma_select_len(self.employments@.take(i as int), active_of_company(company_id@));
            }
            let e = &self.employments[i];
            if e.company_id == id && e.active {
                count = count + 1;
            }
            i = i + 1;
        }
        assert(self.employments@.take(i as int) =~= self.employments@);
        count
    }

    /// The agents without an active contract, out of `total_agents`, counting one per
    /// active contract and stopping at zero.
    pub fn unemployed_count(&self, total_agents: usize) -> (r: usize)
        ensures
            ({
                let employed = select(self.employments@, is_active()).len();
                r == if total_agents > employed { (total_agents - employed) as usize } else { 0 }
            }),
    {
        let employed = self.active_employments().len();
        total_agents.saturating_sub(employed)
    }

    /// The sum of all offers' openings, which must fit in a `u32`.
    pub fn open_positions(&self) -> (r: u32)
        requires
            total_openings(self.job_openings@) <= u32::MAX,
        ensures
            r == total_openings(self.job_openings@),
    {
        let ghost s = self.job_openings@;
        proof {
            lemma_openings_prefix_bounded(s);
        }
        let mut sum: u32 = 0;
        let mut i: usize = 0;
        while i < self.job_openings.len()
            invariant
                s == self.job_openings@,
                i <= s.len(),
                sum == total_openings(s.take(i as int)),
                total_openings(s) <= u32::MAX,
                forall|j: int| 0 <= j <= s.len() ==> total_openings(#[trigger] s.take(j)) <= total_openings(s),
            decreases s.len() - i,
        {
            assert(s.take(i + 1).drop_last() =~= s.take(i as int));
            assert(total_openings(s.take(i + 1)) <= total_openings(s));
            sum = sum + self.job_openings[i].openings;
            i = i + 1;
        }
        assert(s.take(s.len() as int) =~= s);
        sum
    }

    /// Hires an agent that holds no active contract: adds an active contract starting at
    /// `tick` and counts the hire. An agent already employed is refused and nothing
    /// changes.
    pub fn create_employment(&mut self, agent_id: String, company_id: String, role: String, wage: W, tick: u64) -> (r: bool)
        requires
            agent_employed(old(self).employments@, agent_id@) || old(self).total_hires < u64::MAX,
        ensures
            r == !agent_employed(old(self).employments@, agent_id@),
            r ==> final(self).employments@ == old(self).employments@.push(
                (Employment { agent_id, company_id, role, wage, start_tick: tick, active: true }),
            ) && final(self).total_hires == old(self).total_hires + 1,
            !r ==> final(self).employments@ == old(self).employments@ && final(self).total_hires == old(self).total_hires,
            final(self).job_openings@ == old(self).job_openings@,
            final(self).total_wages_paid == old(self).total_wages_paid,
            final(self).total_fires == old(self).total_fires,
            one_job_each(old(self).employments@) ==> one_job_each(final(self).employments@),
    {
        if self.is_agent_employed(agent_id.as_str()) {
            return false;
        }
        let ghost before = self.employments@;
        let ghost new_id = agent_id@;
        self.employments.push(Employment { agent_id, company_id, role, wage, start_tick: tick, active: true });
        self.total_hires = self.total_hires + 1;
        proof {
            assert(self.employments@ == before.push(self.employments@.last()));
            if one_job_each(before) {
                lemma_hire_keeps_one_job_each(before, self.employments@.last());
            }
        }
        true
    }

    /// Ends the first active contract between the agent and the company and counts the
    /// firing; reports whether there was one. Without one, nothing changes.
    pub fn terminate_employment(&mut self, agent_id: &str, company_id: &str) -> (r: bool)
        requires
            !(exists|i: int| first_active_between(old(self).employments@, agent_id@, company_id@, i))
                || old(self).total_fires < u64::MAX,
        ensures
            r == exists|i: int| first_active_between(old(self).employments@, agent_id@, company_id@, i),
            r ==> exists|i: int|
                {
                    &&& first_active_between(old(self).employments@, agent_id@, company_id@, i)
                    &&& final(self).employments@.len() == old(self).employments@.len()
                    &&& ended_at(old(self).employments@[i], final(self).employments@[i])
                    &&& forall|j: int|
                        0 <= j < old(self).employments@.len() && j != i ==> #[trigger] final(self).employments@[j]
                            == old(self).employments@[j]
                },
            r ==> final(self).total_fires == old(self).total_fires + 1,
            r && one_job_each(old(self).employments@) ==> !agent_employed(final(self).employments@, agent_id@),
            !r ==> final(self).employments@ == old(self).employments@ && final(self).total_fires == old(self).total_fires,
            final(self).job_openings@ == old(self).job_openings@,
            final(self).total_wages_paid == old(self).total_wages_paid,
            final(self).total_hires == old(self).total_hires,
            one_job_each(old(self).employments@) ==> one_job_each(final(self).employments@),
    {
        let aid = agent_id.to_owned();
        let cid = company_id.to_owned();
        let ghost before = self.employments@;
        let mut i: usize = 0;
        while i < self.employments.len()
            invariant
                i <= self.employments@.len(),
                self.employments@ == before,
                before == old(self).employments@,
                aid@ == agent_id@,
                cid@ == company_id@,
                self.total_fires == old(self).total_fires,
                self.job_openings@ == old(self).job_openings@,
                self.total_wages_paid == old(self).total_wages_paid,
                self.total_hires == old(self).total_hires,
                !(exists|k: int| first_active_between(before, agent_id@, company_id@, k)) || self.total_fires < u64::MAX,
                forall|j: int|
                    0 <= j < i ==> !((#[trigger] before[j]).agent_id@ == agent_id@ && before[j].company_id@ == company_id@
                        && before[j].active),
            decreases self.employments@.len() - i,
        {
            if self.employments[i].agent_id == aid && self.employments[i].company_id == cid
                && self.employments[i].active {
                assert(first_active_between(before, agent_id@, company_id@, i as int));
                let mut e = self.employments.remove(i);
                e.active = false;
                self.employments.insert(i, e);
                self.total_fires = self.total_fires + 1;
                proof {
                    let s = self.employments@;
                    assert(s.len() == before.len());
                    assert forall|j: int| 0 <= j < before.len() && j != i implies #[trigger] s[j] == before[j] by {}
                    assert(ended_at(before[i as int], s[i as int]));
                    assert forall|a: int, b: int|
                        one_job_each(before) && 0 <= a < s.len() && 0 <= b < s.len() && a != b && s[a].active
                            && s[b].active implies (#[trigger] s[a]).agent_id@ != (#[trigger] s[b]).agent_id@ by {
                        assert(a != i && b != i);
                        assert(s[a] == before[a] && s[b] == before[b]);
                    }
                    if one_job_each(before) {
                        assert forall|j: int| 0 <= j < s.len() implies !((#[trigger] s[j]).agent_id@ == agent_id@
                            && s[j].active) by {
                            if j != i {
                                assert(s[j] == before[j]);
                                if before[j].agent_id@ == agent_id@ && before[j].active {
                                    assert(before[i as int].agent_id@ != before[j].agent_id@);
                                }
                            }
                        }
                    }
                }
                return true;
            }
            i = i + 1;
        }
        proof {
            assert forall|k: int| !first_active_between(before, agent_id@, company_id@, k) by {
                if 0 <= k < before.len() {
                    assert(!(before[k].agent_id@ == agent_id@ && before[k].company_id@ == company_id@
                        && before[k].active));
                }
            }
        }
        false
    }

    /// Ends every active contract of a company, counting each as a firing, and returns
    /// the released agents in order. Afterwards the company has no active contract.
    pub fn terminate_all_for_company(&mut self, company_id: &str) -> (r: Vec<String>)
        requires
            old(self).total_fires + company_headcount(old(self).employments@, company_id@) <= u64::MAX,
        ensures
            final(self).employments@.len() == old(self).employments@.len(),
            forall|j: int|
                0 <= j < old(self).employments@.len() ==> if active_of_company(company_id@)(old(self).employments@[j]) {
                    ended_at(old(self).employments@[j], #[trigger] final(self).employments@[j])
                } else {
                    final(self).employments@[j] == old(self).employments@[j]
                },
            texts(r@) == agent_ids(select(old(self).employments@, active_of_company(company_id@))),
            final(self).total_fires == old(self).total_fires + r@.len(),
            company_headcount(final(self).employments@, company_id@) == 0,
            final(self).job_openings@ == old(self).job_openings@,
            final(self).total_wages_paid == old(self).total_wages_paid,
            final(self).total_hires == old(self).total_hires,
            one_job_each(old(self).employments@) ==> one_job_each(final(self).employments@),
    {
        let cid = company_id.to_owned();
        let ghost before = self.employments@;
        let ghost keep = active_of_company::<W>(company_id@);
        let mut fired: Vec<String> = Vec::new();
        let mut i: usize = 0;
        while i < self.employments.len()
            invariant
                i <= self.employments@.len(),
                self.employments@.len() == before.len(),
                cid@ == company_id@,
                keep == active_of_company::<W>(company_id@),
                forall|j: int|
                    0 <= j < i ==> if keep(before[j]) {
                        ended_at(before[j], #[trigger] self.employments@[j])
                    } else {
                        self.employments@[j] == before[j]
                    },
                forall|j: int| i <= j < before.len() ==> #[trigger] self.employments@[j] == before[j],
                texts(fired@) == agent_ids(select(before.take(i as int), keep)),
                self.total_fires == old(self).total_fires + fired@.len(),
                old(self).total_fires + select(before, keep).len() <= u64::MAX,
                self.job_openings@ == old(self).job_openings@,
                self.total_wages_paid == old(self).total_wages_paid,
                self.total_hires == old(self).total_hires,
                before == old(self).employments@,
            decreases self.employments@.len() - i,
        {
            proof {
                lemma_select_step(before, keep, i as int);
                lemma_select_len(before.take(i as int), keep);
                lemma_select_prefix_len(before, keep, i as int + 1);
            }
            if self.employments[i].company_id == cid && self.employments[i].active {
                let ghost prev = self.employments@;
                assert(prev[i as int] == before[i as int]);
                assert(keep(before[i as int]));
                assert(texts(fired@).len() == fired@.len());
                assert(fired@.len() == select(before.take(i as int), keep).len());
                let mut e = self.employments.remove(i);
                e.active = false;
                let name = e.agent_id.clone();
                self.employments.insert(i, e);
                assert(name@ == before[i as int].agent_id@);
                let ghost fired_before = fired@;
                fired.push(name);
                self.total_fires = self.total_fires + 1;
                proof {
                    assert forall|j: int| 0 <= j < before.len() && j != i implies #[trigger] self.employments@[j]
                        == prev[j] by {}
                    let sel = select(before.take(i as int), keep);
                    assert(select(before.take(i + 1), keep) == sel.push(before[i as int]));
                    assert forall|k: int| 0 <= k < fired@.len() implies #[trigger] texts(fired@)[k] == agent_ids(
                        select(before.take(i + 1), keep),
                    )[k] by {
                        if k < fired_before.len() {
                            assert(texts(fired_before)[k] == agent_ids(sel)[k]);
                            assert(fired@[k] == fired_before[k]);
                            assert(sel.push(before[i as int])[k] == sel[k]);
                        }
                    }
                    assert(texts(fired@) =~= agent_ids(select(before.take(i + 1), keep)));
                }
            } else {
                assert(texts(fired@) =~= agent_ids(select(before.take(i + 1), keep)));
            }
            i = i + 1;
        }
        assert(before.take(i as int) =~= before);
        proof {
            let s = self.employments@;
            assert forall|j: int| 0 <= j < s.len() implies !keep(#[trigger] s[j]) by {
                if keep(before[j]) {
                    assert(ended_at(before[j], s[j]));
                }
            }
            lemma_select_none(s, keep);
            assert forall|a: int, b: int|
                one_job_each(before) && 0 <= a < s.len() && 0 <= b < s.len() && a != b && s[a].active && s[b].active
                    implies (#[trigger] s[a]).agent_id@ != (#[trigger] s[b]).agent_id@ by {
                if keep(before[a]) {
                    assert(ended_at(before[a], s[a]));
                }
                if keep(before[b]) {
                    assert(ended_at(before[b], s[b]));
                }
                assert(s[a] == before[a] && s[b] == before[b]);
            }
        }
        fired
    }

    /// A company with the most active contracts, and how many it has; `None` where no
    /// contract is active. Among companies with equally many, which one is named is
    /// left open.
    pub fn largest_employer(&self) -> (r: Option<(String, usize)>)
        ensures
            r is None <==> select(self.employments@, is_active()).len() == 0,
            r matches Some((company, count)) ==> {
                &&& count == company_headcount(self.employments@, company@)
                &&& count > 0
                &&& forall|i: int|
                    0 <= i < self.employments@.len() && (#[trigger] self.employments@[i]).active ==> company_headcount(
                        self.employments@,
                        self.employments@[i].company_id@,
                    ) <= count
            },
    {
        let ghost s = self.employments@;
        let mut best: Option<(String, usize)> = None;
        let mut i: usize = 0;
        while i < self.employments.len()
            invariant
                s == self.employments@,
                i <= s.len(),
                best is None <==> select(s.take(i as int), is_active()).len() == 0,
                best matches Some((company, count)) ==> count == company_headcount(s, company@) && count > 0,
                best matches Some((company, count)) ==> forall|j: int|
                    0 <= j < i && (#[trigger] s[j]).active ==> company_headcount(s, s[j].company_id@) <= count,
                best is None ==> forall|j: int| 0 <= j < i ==> !(#[trigger] s[j]).active,
            decreases s.len() - i,
        {
            proof {
                lemma_select_step(s, is_active(), i as int);
            }
            if self.employments[i].active {
                let count = self.employee_count_for_company(self.employments[i].company_id.as_str());
                proof {
                    lemma_headcount_positive(s, i as int);
                }
                let better = match &best {
                    Some((_, c)) => count > *c,
                    None => true,
                };
                if better {
                    best = Some((self.employments[i].company_id.clone(), count));
                }
            }
            i = i + 1;
        }
        assert(s.take(i as int) =~= s);
        best
    }
}

/// Hiring an agent that holds no active contract keeps every agent at one active
/// contract at most.
pub proof fn lemma_hire_keeps_one_job_each<W>(s: Seq<Employment<W>>, e: Employment<W>)
    requires
        one_job_each(s),
        !agent_employed(s, e.agent_id@),
    ensures
        one_job_each(s.push(e)),
{
    let t = s.push(e);
    assert forall|i: int, j: int|
        0 <= i < t.len() && 0 <= j < t.len() && i != j && t[i].active && t[j].active implies (#[trigger] t[i]).agent_id@
            != (#[trigger] t[j]).agent_id@ by {
        if i < s.len() && j < s.len() {
            assert(t[i] == s[i] && t[j] == s[j]);
        } else if i == s.len() {
            assert(t[j] == s[j]);
        } else {
            assert(t[i] == s[i]);
        }
    }
}

/// An agent as the payroll sees it: who it is, whom it works for and what it is doing.
#[derive(Debug, Clone)]
pub struct AgentPost {
    pub agent_id: String,
    pub employer: Option<String>,
    pub status: AgentStatus,
}

/// Whether an agent works for `company_id` and is working now.
pub open spec fn working_at(company_id: Seq<char>) -> spec_fn(AgentPost) -> bool {
    |a: AgentPost| a.employer is Some && a.employer.unwrap()@ == company_id && a.status == AgentStatus::Working
}

/// The ids of a list of agents, in order.
pub open spec fn post_ids(s: Seq<AgentPost>) -> Seq<Seq<char>> {
    s.map_values(|a: AgentPost| a.agent_id@)
}

/// The ids of the agents, in their order, that work for `company_id` and are working now.
pub fn working_agents_of(agents: &Vec<AgentPost>, company_id: &str) -> (r: Vec<String>)
    ensures
        texts(r@) == post_ids(select(agents@, working_at(company_id@))),
{
    let mut r: Vec<String> = Vec::new();
    let mut i: usize = 0;
    while i < agents.len()
        invariant
            i <= agents@.len(),
            texts(r@) == post_ids(select(agents@.take(i as int), working_at(company_id@))),
        decreases agents@.len() - i,
    {
        proof {
            lemma_select_step(agents@, working_at(company_id@), i as int);
        }
        let a = &agents[i];
        let works_here = match &a.employer {
            Some(e) => same_text(e.as_str(), company_id),
            None => false,
        };
        if works_here && a.status == AgentStatus::Working {
            let id = a.agent_id.clone();
            let ghost before = r@;
            r.push(id);
            assert(texts(r@) =~= texts(before).push(a.agent_id@));
        }
        assert(texts(r@) =~= post_ids(select(agents@.take(i + 1), working_at(company_id@))));
        i = i + 1;
    }
    assert(agents@.take(i as int) =~= agents@);
    r
}

/// A list with one more element holds what it held and that element.
proof fn lemma_push_contains<T>(q: Seq<T>, e: T, x: T)
    ensures
        q.push(e).contains(x) <==> q.contains(x) || x == e,
{
    let r = q.push(e);
    if r.contains(x) {
        let i = choose|i: int| 0 <= i < r.len() && r[i] == x;
        if i < q.len() {
            assert(q[i] == x);
        }
    }
    if q.contains(x) {
        let i = choose|i: int| 0 <= i < q.len() && q[i] == x;
        assert(r[i] == x);
    }
    assert(r[q.len() as int] == e);
}

/// What `select` keeps is exactly the elements of the list that `keep` accepts.
proof fn lemma_select_contains<T>(s: Seq<T>, keep: spec_fn(T) -> bool)
    ensures
        forall|x: T| #[trigger] select(s, keep).contains(x) <==> s.contains(x) && keep(x),
    decreases s.len(),
{
    if s.len() == 0 {
        assert forall|x: T| #[trigger] select(s, keep).contains(x) <==> s.contains(x) && keep(x) by {
            if s.contains(x) {
                let i = choose|i: int| 0 <= i < s.len() && s[i] == x;
            }
        }
    } else {
        let p = s.drop_last();
        let e = s.last();
        lemma_select_contains(p, keep);
        assert(s =~= p.push(e));
        assert forall|x: T| #[trigger] select(s, keep).contains(x) <==> s.contains(x) && keep(x) by {
            lemma_push_contains(p, e, x);
            lemma_push_contains(select(p, keep), e, x);
        }
    }
}

/// The agents reported working for a company are exactly those, among the given ones,
/// whose employer is that company and whose status is `Working`.
pub proof fn lemma_working_agents_exact(agents: Seq<AgentPost>, company_id: Seq<char>)
    ensures
        forall|x: AgentPost|
            #[trigger] select(agents, working_at(company_id)).contains(x) <==> agents.contains(x) && x.employer is Some
                && x.employer.unwrap()@ == company_id && x.status == AgentStatus::Working,
{
    lemma_select_contains(agents, working_at(company_id));
}

/// A hire leaves the hired agent employed.
pub proof fn lemma_hire_employs<W>(s: Seq<Employment<W>>, e: Employment<W>)
    requires
        e.active,
    ensures
        agent_employed(s.push(e), e.agent_id@),
        company_headcount(s.push(e), e.company_id@) == company_headcount(s, e.company_id@) + 1,
{
    assert(s.push(e)[s.len() as int] == e);
    assert(s.push(e).drop_last() =~= s);
}

/// An active contract counts toward its company's headcount.
proof fn lemma_headcount_positive<W>(s: Seq<Employment<W>>, i: int)
    requires
        0 <= i < s.len(),
        s[i].active,
    ensures
        company_headcount(s, s[i].company_id@) > 0,
{
    let keep = active_of_company::<W>(s[i].company_id@);
    if select(s, keep).len() == 0 {
        lemma_select_empty(s, keep);
        assert(!keep(s[i]));
    }
}

/// A list whose elements `keep` all rejects selects nothing.
proof fn lemma_select_none<T>(s: Seq<T>, keep: spec_fn(T) -> bool)
    requires
        forall|i: int| 0 <= i < s.len() ==> !keep(#[trigger] s[i]),
    ensures
        select(s, keep).len() == 0,
    decreases s.len(),
{
    if s.len() > 0 {
        let p = s.drop_last();
        assert forall|i: int| 0 <= i < p.len() implies !keep(#[trigger] p[i]) by {
            assert(p[i] == s[i]);
        }
        lemma_select_none(p, keep);
        assert(!keep(s[s.len() - 1]));
    }
}

/// A prefix selects no more than the whole list.
proof fn lemma_select_prefix_len<T>(s: Seq<T>, keep: spec_fn(T) -> bool, n: int)
    requires
        0 <= n <= s.len(),
    ensures
        select(s.take(n), keep).len() <= select(s, keep).len(),
    decreases s.len() - n,
{
    if n < s.len() {
        lemma_select_prefix_len(s, keep, n + 1);
        lemma_select_step(s, keep, n);
    } else {
        assert(s.take(n) =~= s);
    }
}

/// Every prefix of a list of offers has at most the openings of the whole.
proof fn lemma_openings_prefix_bounded<W>(s: Seq<JobOffer<W>>)
    ensures
        forall|j: int| 0 <= j <= s.len() ==> total_openings(#[trigger] s.take(j)) <= total_openings(s),
    decreases s.len(),
{
    if s.len() > 0 {
        lemma_openings_prefix_bounded(s.drop_last());
        assert forall|j: int| 0 <= j <= s.len() implies total_openings(#[trigger] s.take(j)) <= total_openings(s) by {
            if j < s.len() {
                assert(s.take(j) =~= s.drop_last().take(j));
            } else {
                assert(s.take(j) =~= s);
            }
        }
    }
}

} // verus!
