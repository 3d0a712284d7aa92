//! The order in which the systems of a frame run.
//!
//! Systems are registered one by one, each once, under a name and with the
//! names of the systems that have to be done before it starts. A system can only
//! depend on systems registered before it, so the order of registration is
//! an order in which every system comes after all it depends on, and no
//! schedule can hold a cycle.

use vstd::prelude::*;

verus! {

/// The systems that a frame can run.
#[derive(Clone, Copy, Debug, PartialEq, Eq, Structural)]
pub enum System {
    Projectile,
    ProjectileCollision,
    ProjectileRemovalFromMask,
    TerrainCollapse,
    Walk,
    UnitFall,
    UnitResumeWalking,
    UnitCollide,
    Melee,
    Turret,
    Particle,
}

/// Why a system could not be registered.
#[derive(Clone, Copy, Debug, PartialEq, Eq, Structural)]
pub enum ScheduleError {
    /// A system of that name is registered already.
    DuplicateName,
    /// The system is registered already, under another name.
    DuplicateSystem,
    /// One of the names it depends on is not registered.
    UnknownDependency,
}

/// One registered system.
pub struct Stage {
    name: String,
    system: System,
    after: Vec<usize>,
}

/// The mathematical content of a stage: its name, its system, and the
/// places in the schedule of the stages it depends on.
pub struct StageView {
    pub name: Seq<char>,
    pub system: System,
    pub after: Seq<int>,
}

/// The registered systems, in the order in which they run.
pub struct Schedule {
    stages: Vec<Stage>,
}

/// The place in `stages` of the stage called `name`, if there is one.
pub open spec fn position_of(stages: Seq<StageView>, name: Seq<char>) -> Option<int>
    decreases stages.len(),
{
    if stages.len() == 0 {
        None
    } else if stages.last().name == name {
        Some(stages.len() - 1)
    } else {
        position_of(stages.drop_last(), name)
    }
}

/// Whether a stage called `name` is among `stages`.
pub open spec fn has_name(stages: Seq<StageView>, name: Seq<char>) -> bool {
    exists|i: int| 0 <= i < stages.len() && (#[trigger] stages[i]).name == name
}

/// Whether the system `system` is among `stages`.
pub open spec fn has_system(stages: Seq<StageView>, system: System) -> bool {
    exists|i: int| 0 <= i < stages.len() && (#[trigger] stages[i]).system == system
}

/// Whether every stage depends only on stages before it, no name is used
/// twice, and no system stands twice.
pub open spec fn ordered(stages: Seq<StageView>) -> bool {
    &&& forall|i: int, k: int|
        0 <= i < stages.len() && 0 <= k < stages[i].after.len() ==> 0 <= #[trigger] stages[i].after[k]
            < i
    &&& forall|i: int, j: int|
        0 <= i < j < stages.len() ==> (#[trigger] stages[i]).name != (#[trigger] stages[j]).name
    &&& forall|i: int, j: int|
        0 <= i < j < stages.len() ==> (#[trigger] stages[i]).system != (#[trigger] stages[j]).system
}

/// The places of the stages called `names`, in the same order.
pub open spec fn places(stages: Seq<StageView>, names: Seq<Seq<char>>) -> Seq<int> {
    Seq::new(names.len(), |k: int| position_of(stages, names[k]).unwrap())
}

/// What `position_of` finds is the place of a stage of that name, and it
/// finds one whenever there is one.
pub proof fn lemma_position_of(stages: Seq<StageView>, name: Seq<char>)
    ensures
        match position_of(stages, name) {
            Some(i) => 0 <= i < stages.len() && stages[i].name == name,
            None => !has_name(stages, name),
        },
    decreases stages.len(),
{
    if stages.len() > 0 && stages.last().name != name {
        let front = stages.drop_last();
        lemma_position_of(front, name);
        if position_of(front, name) is None {
            assert forall|i: int| 0 <= i < stages.len() implies (#[trigger] stages[i]).name
                != name by {
                if i < front.len() {
                    assert(front[i] == stages[i]);
                }
            }
        }
    }
}

/// In an ordered schedule every system that a system depends on stands
/// before it, so that it has run when the systems are run from first to
/// last; and nothing depends on itself, directly or through others.
pub proof fn lemma_dependencies_first(stages: Seq<StageView>, i: int, k: int)
    requires
        ordered(stages),
        0 <= i < stages.len(),
        0 <= k < stages[i].after.len(),
    ensures
        0 <= stages[i].after[k] < i,
{
}

/// Whether the stage at place `k` of `chain` is one that the stage before
/// it in the chain depends on.
pub open spec fn linked(stages: Seq<StageView>, chain: Seq<int>, k: int) -> bool {
    stages[chain[k - 1]].after.contains(chain[k])
}

/// Whether `chain` is a chain of dependencies: each stage but the first is
/// one that the stage before it depends on.
pub open spec fn dependency_chain(stages: Seq<StageView>, chain: Seq<int>) -> bool {
    &&& forall|k: int| 0 <= k < chain.len() ==> 0 <= #[trigger] chain[k] < stages.len()
    &&& forall|k: int| 0 < k < chain.len() ==> #[trigger] linked(stages, chain, k)
}

/// An ordered schedule holds no cycle: a chain of dependencies leads to
/// ever earlier stages, and so never back to the stage it began with.
pub proof fn lemma_no_cycle(stages: Seq<StageView>, chain: Seq<int>, k: int)
    requires
        ordered(stages),
        dependency_chain(stages, chain),
        0 < k < chain.len(),
    ensures
        chain[k] < chain[0],
    decreases k,
{
    let from = chain[k - 1];
    assert(linked(stages, chain, k));
    let j = choose|j: int| 0 <= j < stages[from].after.len() && stages[from].after[j] == chain[k];
    lemma_dependencies_first(stages, from, j);
    if k > 1 {
        lemma_no_cycle(stages, chain, k - 1);
    }
}

/// A stage that is put behind the stages of an ordered schedule leaves it
/// ordered, when its name and its system are new and it depends on stages
/// of the schedule only.
proof fn lemma_push_keeps_order(before: Seq<StageView>, added: StageView)
    requires
        ordered(before),
        !has_name(before, added.name),
        !has_system(before, added.system),
        forall|j: int| 0 <= j < added.after.len() ==> 0 <= #[trigger] added.after[j] < before.len(),
    ensures
        ordered(before.push(added)),
{
    let after = before.push(added);
    assert forall|i: int, j: int| 0 <= i < j < after.len() implies (#[trigger] after[i]).name
        != (#[trigger] after[j]).name by {
        assert(before[i] == after[i]);
        if j < before.len() {
            assert(before[j] == after[j]);
        }
    }
    assert forall|i: int, j: int| 0 <= i < j < after.len() implies (#[trigger] after[i]).system
        != (#[trigger] after[j]).system by {
        assert(before[i] == after[i]);
        if j < before.len() {
            assert(before[j] == after[j]);
        }
    }
    assert forall|i: int, k: int|
        0 <= i < after.len() && 0 <= k < after[i].after.len() implies 0
        <= #[trigger] after[i].after[k] < i by {
        if i < before.len() {
            assert(before[i] == after[i]);
        }
    }
}

impl Stage {
    /// The mathematical content of the stage.
    pub closed spec fn view(&self) -> StageView {
        StageView {
            name: self.name@,
            system: self.system,
            after: Seq::new(self.after@.len(), |k: int| self.after@[k] as int),
        }
    }
}

impl View for Schedule {
    type V = Seq<StageView>;

    closed spec fn view(&self) -> Seq<StageView> {
        Seq::new(self.stages@.len(), |i: int| self.stages@[i].view())
    }
}

impl Schedule {
    #[verifier::type_invariant]
    spec fn inv(self) -> bool {
        ordered(self@)
    }

    /// A schedule without systems.
    pub fn new() -> (s: Schedule)
        ensures
            s@ == Seq::<StageView>::empty(),
    {
        let s = Schedule { stages: Vec::new() };
        assert(s@ =~= Seq::<StageView>::empty());
        s
    }

    /// How many systems are registered. In every schedule each system
    /// comes after all that it depends on, each name stands for one system,
    /// and no system stands twice.
    pub fn len(&self) -> (n: usize)
        ensures
            n == self@.len(),
            ordered(self@),
    {
        proof {
            use_type_invariant(self);
        }
        self.stages.len()
    }

    /// The system that runs at place `i`, if the schedule is that long.
    pub fn system_at(&self, i: usize) -> (s: Option<System>)
        ensures
            s == (if i < self@.len() {
                Some(self@[i as int].system)
            } else {
                None
            }),
    {
        if i < self.stages.len() {
            Some(self.stages[i].system)
        } else {
            None
        }
    }

    /// The place of the stage called `name`, if there is one.
    pub fn find(&self, name: &String) -> (place: Option<usize>)
        ensures
            match place {
                Some(i) => position_of(self@, name@) == Some(i as int),
                None => position_of(self@, name@) is None,
            },
    {
        let mut i: usize = self.stages.len();
        assert(self@.take(i as int) =~= self@);
        while i > 0
            invariant
                i <= self.stages.len(),
                position_of(self@, name@) == position_of(self@.take(i as int), name@),
            decreases i,
        {
            i -= 1;
            let ghost front = self@.take(i as int + 1);
            assert(front.last() == self@[i as int]);
            assert(front.drop_last() =~= self@.take(i as int));
            if self.stages[i].name == *name {
                return Some(i);
            }
        }
        assert(self@.take(0) =~= Seq::<StageView>::empty());
        None
    }

    /// Whether the system `system` is registered.
    pub fn holds(&self, system: System) -> (found: bool)
        ensures
            found == has_system(self@, system),
    {
        let mut i: usize = 0;
        while i < self.stages.len()
            invariant
                i <= self.stages.len(),
                forall|j: int| 0 <= j < i ==> (#[trigger] self@[j]).system != system,
            decreases self.stages.len() - i,
        {
            if self.stages[i].system == system {
                assert(self@[i as int].system == system);
                return true;
            }
            i += 1;
        }
        false
    }

    /// Registers `system` under `name`, to run after the systems called
    /// `after`. Nothing is registered when the name is taken, when the
    /// system is registered already, or when one of the names in `after` is
    /// not registered.
    pub fn add(&mut self, name: String, system: System, after: &Vec<String>) -> (r: Result<
        (),
        ScheduleError,
    >)
        ensures
            ordered(final(self)@),
            r == (if has_name(old(self)@, name@) {
                Err::<(), ScheduleError>(ScheduleError::DuplicateName)
            } else if has_system(old(self)@, system) {
                Err::<(), ScheduleError>(ScheduleError::DuplicateSystem)
            } else if exists|k: int| 0 <= k < after.len() && !has_name(old(self)@, #[trigger] after[k]@) {
                Err::<(), ScheduleError>(ScheduleError::UnknownDependency)
            } else {
                Ok::<(), ScheduleError>(())
            }),
            r is Err ==> final(self)@ == old(self)@,
            r is Ok ==> final(self)@ == old(self)@.push(
                StageView {
                    name: name@,
                    system,
                    after: places(old(self)@, Seq::new(after@.len(), |k: int| after@[k]@)),
                },
            ),
    {
        proof {
            use_type_invariant(&*self);
            lemma_position_of(self@, name@);
        }
        if self.find(&name).is_some() {
            return Err(ScheduleError::DuplicateName);
        }
        if self.holds(system) {
            return Err(ScheduleError::DuplicateSystem);
        }
        let mut found: Vec<usize> = Vec::new();
        let mut k: usize = 0;
        while k < after.len()
            invariant
                k <= after.len(),
                found.len() == k,
                self@ == old(self)@,
                ordered(self@),
                !has_name(self@, name@),
                !has_system(self@, system),
                forall|j: int|
                    0 <= j < k ==> position_of(self@, #[trigger] after[j]@) == Some(found[j] as int),
            decreases after.len() - k,
        {
            proof {
                lemma_position_of(self@, after[k as int]@);
            }
            match self.find(&after[k]) {
                Some(i) => {
                    found.push(i);
                },
                None => {
                    assert(!has_name(old(self)@, after[k as int]@));
                    return Err(ScheduleError::UnknownDependency);
                },
            }
            k += 1;
        }
        let ghost before = self@;
        let ghost names = Seq::new(after@.len(), |k: int| after@[k]@);
        proof {
            assert forall|j: int| 0 <= j < after.len() implies has_name(
                before,
                #[trigger] after[j]@,
            ) by {
                lemma_position_of(before, after[j]@);
            }
        }
        let stage = Stage { name, system, after: found };
        let ghost added = stage.view();
        proof {
            assert(added.after =~= places(before, names));
            assert forall|j: int| 0 <= j < added.after.len() implies 0 <= #[trigger] added.after[j]
                < before.len() by {
                lemma_position_of(before, after[j]@);
            }
        }
        let mut taken = Schedule { stages: Vec::new() };
        assert(taken@ =~= Seq::<StageView>::empty());
        std::mem::swap(self, &mut taken);
        let Schedule { stages } = taken;
        let mut stages = stages;
        stages.push(stage);
        let ghost grown = Seq::new(stages@.len(), |i: int| stages@[i].view());
        proof {
            assert(grown =~= before.push(added));
            lemma_push_keeps_order(before, added);
        }
        *self = Schedule { stages };
        proof {
            assert(self@ =~= before.push(added));
        }
        Ok(())
    }
}

} // verus!
