use vstd::prelude::*;
use crate::model::{Asset, Branch, Build, DetectionError, MAX_BUILD_NUMBER};
use crate::classify::lemma_classification_len;
use crate::plan::{
    AssetRow, AssetRowView, BuildRow, BuildRowView, ObservationRow, ObservationRowView, Statement,
    StatementView, asset_plan, build_plan, canonical_roles, plan_build_on_branch,
    plan_detected_assets, statement_views,
};

verus! {

/// The contents of the three tables.
pub struct Tables {
    pub builds: Seq<BuildRowView>,
    pub observations: Seq<ObservationRowView>,
    pub assets: Seq<AssetRowView>,
}

pub open spec fn empty_tables() -> Tables {
    Tables { builds: Seq::empty(), observations: Seq::empty(), assets: Seq::empty() }
}

pub open spec fn has_build(builds: Seq<BuildRowView>, id: Seq<char>) -> bool {
    exists|i: int| 0 <= i < builds.len() && #[trigger] builds[i].build_id == id
}

pub open spec fn has_asset(assets: Seq<AssetRowView>, id: Seq<char>, name: Seq<char>) -> bool {
    exists|i: int| 0 <= i < assets.len() && #[trigger] assets[i].build_id == id && assets[i].name == name
}

/// The effect of one statement run at the given time. Inserting a build or
/// an asset that is already recorded changes nothing.
pub open spec fn apply(t: Tables, s: StatementView, tick: u64) -> Tables {
    match s {
        StatementView::InsertBuild { build_id, build_number } => {
            if has_build(t.builds, build_id) {
                t
            } else {
                Tables {
                    builds: t.builds.push(BuildRowView { build_id, build_number }),
                    observations: t.observations,
                    assets: t.assets,
                }
            }
        },
        StatementView::InsertObservation { build_id, branch } => Tables {
            builds: t.builds,
            observations: t.observations.push(
                ObservationRowView { build_id, branch, detected_at: tick },
            ),
            assets: t.assets,
        },
        StatementView::InsertAsset(row) => {
            if has_asset(t.assets, row.build_id, row.name) {
                t
            } else {
                Tables { builds: t.builds, observations: t.observations, assets: t.assets.push(row) }
            }
        },
    }
}

/// The effect of statements run one after another, the first at `tick`.
pub open spec fn apply_all(t: Tables, s: Seq<StatementView>, tick: int) -> Tables
    decreases s.len(),
{
    if s.len() == 0 {
        t
    } else {
        apply(apply_all(t, s.drop_last(), tick), s.last(), (tick + s.len() - 1) as u64)
    }
}

/// The tables' invariants: build ids are unique, (build, asset name) pairs
/// are unique, and observations carry strictly increasing times, all before
/// `ticks`.
pub open spec fn tables_wf(t: Tables, ticks: int) -> bool {
    &&& forall|i: int, j: int|
        0 <= i < j < t.builds.len() ==> #[trigger] t.builds[i].build_id != #[trigger] t.builds[j].build_id
    &&& forall|i: int, j: int|
        0 <= i < j < t.assets.len() ==> !(#[trigger] t.assets[i].build_id == #[trigger] t.assets[j].build_id
            && t.assets[i].name == t.assets[j].name)
    &&& forall|i: int, j: int|
        0 <= i < j < t.observations.len() ==> #[trigger] t.observations[i].detected_at
            < #[trigger] t.observations[j].detected_at
    &&& forall|i: int| 0 <= i < t.observations.len() ==> #[trigger] t.observations[i].detected_at < ticks
}

/// The mathematical state of a [`MemoryStore`].
pub struct StoreView {
    pub tables: Tables,
    /// The store's logical clock: it advances by one with each statement run.
    pub ticks: int,
    /// The clock value at which a statement will fail, if any.
    pub fail_at: Option<u64>,
}

/// The index of the statement that fails when `n` statements run in a
/// transaction from state `v`, if one does.
pub open spec fn failure_point(v: StoreView, n: int) -> Option<int> {
    match v.fail_at {
        Some(f) => if v.ticks <= f < v.ticks + n {
            Some(f - v.ticks)
        } else {
            None
        },
        None => None,
    }
}

/// What running `plan` as one transaction does: either every statement
/// takes effect, or a statement fails and no table changes at all.
pub open spec fn transaction_outcome(
    old: StoreView,
    new: StoreView,
    r: Result<(), DetectionError>,
    plan: Seq<StatementView>,
) -> bool {
    &&& new.fail_at == old.fail_at
    &&& match failure_point(old, plan.len() as int) {
        Some(k) => {
            &&& r == Err::<(), DetectionError>(DetectionError::StoreFailure { statement: k as u64 })
            &&& new.tables == old.tables
            &&& new.ticks == old.ticks + k + 1
        },
        None => {
            &&& r is Ok
            &&& new.tables == apply_all(old.tables, plan, old.ticks)
            &&& new.ticks == old.ticks + plan.len()
        },
    }
}

pub open spec fn observed_on(obs: Seq<ObservationRowView>, branch: Branch) -> bool {
    exists|i: int| 0 <= i < obs.len() && #[trigger] obs[i].branch == branch
}

/// Observation `i` is on `branch` and no observation on it is later.
pub open spec fn is_latest(obs: Seq<ObservationRowView>, branch: Branch, i: int) -> bool {
    &&& 0 <= i < obs.len()
    &&& obs[i].branch == branch
    &&& forall|j: int|
        0 <= j < obs.len() && #[trigger] obs[j].branch == branch ==> obs[j].detected_at
            <= obs[i].detected_at
}

pub proof fn lemma_apply_wf(t: Tables, s: StatementView, tick: int)
    requires
        tables_wf(t, tick),
        0 <= tick < u64::MAX,
    ensures
        tables_wf(apply(t, s, tick as u64), tick + 1),
{
    let n = apply(t, s, tick as u64);
    match s {
        StatementView::InsertBuild { build_id, build_number } => {
            if !has_build(t.builds, build_id) {
                assert forall|i: int, j: int| 0 <= i < j < n.builds.len() implies #[trigger] n.builds[i].build_id
                    != #[trigger] n.builds[j].build_id by {
                    if j == t.builds.len() {
                        assert(n.builds[i] == t.builds[i]);
                    } else {
                        assert(n.builds[i] == t.builds[i] && n.builds[j] == t.builds[j]);
                    }
                }
            }
        },
        StatementView::InsertObservation { build_id, branch } => {
            assert forall|i: int, j: int| 0 <= i < j < n.observations.len() implies
                #[trigger] n.observations[i].detected_at < #[trigger] n.observations[j].detected_at by {
                assert(n.observations[i] == t.observations[i]);
                if j < t.observations.len() {
                    assert(n.observations[j] == t.observations[j]);
                }
            }
            assert forall|i: int| 0 <= i < n.observations.len() implies #[trigger] n.observations[i].detected_at
                < tick + 1 by {
                if i < t.observations.len() {
                    assert(n.observations[i] == t.observations[i]);
                }
            }
        },
        StatementView::InsertAsset(row) => {
            if !has_asset(t.assets, row.build_id, row.name) {
                assert forall|i: int, j: int| 0 <= i < j < n.assets.len() implies !(
                #[trigger] n.assets[i].build_id == #[trigger] n.assets[j].build_id && n.assets[i].name
                    == n.assets[j].name) by {
                    assert(n.assets[i] == t.assets[i]);
                    if j < t.assets.len() {
                        assert(n.assets[j] == t.assets[j]);
                    }
                }
            }
        },
    }
}

pub proof fn lemma_wf_later(t: Tables, ticks: int, later: int)
    requires
        tables_wf(t, ticks),
        ticks <= later,
    ensures
        tables_wf(t, later),
{
}

/// Running statements keeps the tables' invariants.
pub proof fn lemma_apply_all_wf(t: Tables, s: Seq<StatementView>, tick: int)
    requires
        tables_wf(t, tick),
        0 <= tick,
        tick + s.len() <= u64::MAX,
    ensures
        tables_wf(apply_all(t, s, tick), tick + s.len()),
    decreases s.len(),
{
    if s.len() > 0 {
        lemma_apply_all_wf(t, s.drop_last(), tick);
        lemma_apply_wf(apply_all(t, s.drop_last(), tick), s.last(), tick + s.len() - 1);
    }
}

/// Statements only ever append rows.
pub proof fn lemma_apply_all_extends(t: Tables, s: Seq<StatementView>, tick: int)
    ensures
        apply_all(t, s, tick).builds.len() >= t.builds.len(),
        apply_all(t, s, tick).builds.subrange(0, t.builds.len() as int) == t.builds,
        apply_all(t, s, tick).observations.len() >= t.observations.len(),
        apply_all(t, s, tick).observations.subrange(0, t.observations.len() as int) == t.observations,
        apply_all(t, s, tick).assets.len() >= t.assets.len(),
        apply_all(t, s, tick).assets.subrange(0, t.assets.len() as int) == t.assets,
    decreases s.len(),
{
    if s.len() > 0 {
        let p = apply_all(t, s.drop_last(), tick);
        lemma_apply_all_extends(t, s.drop_last(), tick);
        let n = apply_all(t, s, tick);
        assert(n.builds.subrange(0, t.builds.len() as int) =~= p.builds.subrange(0, t.builds.len() as int));
        assert(n.observations.subrange(0, t.observations.len() as int) =~= p.observations.subrange(
            0,
            t.observations.len() as int,
        ));
        assert(n.assets.subrange(0, t.assets.len() as int) =~= p.assets.subrange(0, t.assets.len() as int));
    }
}

/// An in-memory detection store with the same tables and write semantics as
/// the relational one. A failure can be injected at a chosen clock value,
/// which stands for an error from the store.
pub struct MemoryStore {
    builds: Vec<BuildRow>,
    observations: Vec<ObservationRow>,
    assets: Vec<AssetRow>,
    ticks: u64,
    fail_at: Option<u64>,
}

impl View for MemoryStore {
    type V = StoreView;

    closed spec fn view(&self) -> StoreView {
        StoreView {
            tables: Tables {
                builds: self.builds@.map_values(|r: BuildRow| r@),
                observations: self.observations@.map_values(|r: ObservationRow| r@),
                assets: self.assets@.map_values(|r: AssetRow| r@),
            },
            ticks: self.ticks as int,
            fail_at: self.fail_at,
        }
    }
}

impl MemoryStore {
    pub open spec fn wf(&self) -> bool {
        &&& tables_wf(self@.tables, self@.ticks)
        &&& 0 <= self@.ticks <= u64::MAX
    }

    /// An empty store whose clock starts at zero and that never fails.
    pub fn new() -> (r: Self)
        ensures
            r.wf(),
            r@.tables == empty_tables(),
            r@.ticks == 0,
            r@.fail_at is None,
    {
        let r = MemoryStore {
            builds: Vec::new(),
            observations: Vec::new(),
            assets: Vec::new(),
            ticks: 0,
            fail_at: None,
        };
        assert(r@.tables.builds =~= Seq::empty());
        assert(r@.tables.observations =~= Seq::empty());
        assert(r@.tables.assets =~= Seq::empty());
        r
    }

    /// Makes the statement run at clock value `at` fail (or none, for `None`).
    pub fn set_fail_at(&mut self, at: Option<u64>)
        ensures
            final(self)@ == (StoreView { fail_at: at, ..old(self)@ }),
    {
        self.fail_at = at;
    }

    /// The store's logical clock: the number of statements it has run.
    pub fn ticks(&self) -> (r: u64)
        ensures
            r == self@.ticks,
    {
        self.ticks
    }

    pub fn builds(&self) -> (r: &Vec<BuildRow>)
        ensures
            r@.map_values(|x: BuildRow| x@) == self@.tables.builds,
    {
        &self.builds
    }

    pub fn observations(&self) -> (r: &Vec<ObservationRow>)
        ensures
            r@.map_values(|x: ObservationRow| x@) == self@.tables.observations,
    {
        &self.observations
    }

    pub fn assets(&self) -> (r: &Vec<AssetRow>)
        ensures
            r@.map_values(|x: AssetRow| x@) == self@.tables.assets,
    {
        &self.assets
    }

    fn contains_build(&self, id: &String) -> (r: bool)
        ensures
            r == has_build(self@.tables.builds, id@),
    {
        let ghost t = self@.tables.builds;
        let mut i: usize = 0;
        while i < self.builds.len()
            invariant
                i <= self.builds@.len(),
                t == self@.tables.builds,
                forall|j: int| 0 <= j < i ==> #[trigger] t[j].build_id != id@,
            decreases self.builds@.len() - i,
        {
            if self.builds[i].build_id == *id {
                assert(t[i as int].build_id == id@);
                return true;
            }
            i = i + 1;
        }
        false
    }

    fn contains_asset(&self, id: &String, name: &String) -> (r: bool)
        ensures
            r == has_asset(self@.tables.assets, id@, name@),
    {
        let ghost t = self@.tables.assets;
        let mut i: usize = 0;
        while i < self.assets.len()
            invariant
                i <= self.assets@.len(),
                t == self@.tables.assets,
                forall|j: int| 0 <= j < i ==> !(#[trigger] t[j].build_id == id@ && t[j].name == name@),
            decreases self.assets@.len() - i,
        {
            if self.assets[i].build_id == *id && self.assets[i].name == *name {
                assert(t[i as int].build_id == id@ && t[i as int].name == name@);
                return true;
            }
            i = i + 1;
        }
        false
    }

    /// Runs one statement at the current clock value and advances the clock.
    fn run_statement(&mut self, s: &Statement)
        requires
            old(self).wf(),
            old(self)@.ticks < u64::MAX,
        ensures
            final(self).wf(),
            final(self)@.tables == apply(old(self)@.tables, s@, old(self)@.ticks as u64),
            final(self)@.ticks == old(self)@.ticks + 1,
            final(self)@.fail_at == old(self)@.fail_at,
    {
        proof {
            lemma_apply_wf(self@.tables, s@, self@.ticks);
        }
        let ghost t = self@.tables;
        match s {
            Statement::InsertBuild { build_id, build_number } => {
                if !self.contains_build(build_id) {
                    let row = BuildRow { build_id: build_id.clone(), build_number: *build_number };
                    self.builds.push(row);
                    assert(self@.tables.builds =~= t.builds.push(row@));
                }
            },
            Statement::InsertObservation { build_id, branch } => {
                let row = ObservationRow {
                    build_id: build_id.clone(),
                    branch: *branch,
                    detected_at: self.ticks,
                };
                self.observations.push(row);
                assert(self@.tables.observations =~= t.observations.push(row@));
            },
            Statement::InsertAsset(row) => {
                if !self.contains_asset(&row.build_id, &row.name) {
                    let copy = AssetRow {
                        build_id: row.build_id.clone(),
                        name: row.name.clone(),
                        surface: row.surface,
                        script_type: match &row.script_type {
                            Some(role) => Some(role.clone()),
                            None => None,
                        },
                    };
                    assert(copy@ == row@);
                    self.assets.push(copy);
                    assert(self@.tables.assets =~= t.assets.push(row@));
                }
            },
        }
        self.ticks = self.ticks + 1;
    }

    /// Runs the statements as one transaction: all of them take effect, or,
    /// when one fails, none does and the failure is returned.
    pub fn run_transaction(&mut self, stmts: &Vec<Statement>) -> (r: Result<(), DetectionError>)
        requires
            old(self).wf(),
            old(self)@.ticks + stmts@.len() <= u64::MAX,
        ensures
            final(self).wf(),
            transaction_outcome(old(self)@, final(self)@, r, statement_views(stmts@)),
    {
        let ghost start = self@;
        let ghost sv = statement_views(stmts@);
        let n_builds = self.builds.len();
        let n_observations = self.observations.len();
        let n_assets = self.assets.len();
        let mut i: usize = 0;
        while i < stmts.len()
            invariant
                i <= stmts@.len(),
                sv == statement_views(stmts@),
                start == old(self)@,
                start.ticks + stmts@.len() <= u64::MAX,
                self.wf(),
                self@.ticks == start.ticks + i,
                self@.fail_at == start.fail_at,
                self@.tables == apply_all(start.tables, sv.take(i as int), start.ticks),
                failure_point(start, i as int) is None,
                n_builds == start.tables.builds.len(),
                n_observations == start.tables.observations.len(),
                n_assets == start.tables.assets.len(),
            decreases stmts@.len() - i,
        {
            let fails = match self.fail_at {
                Some(f) => f == self.ticks,
                None => false,
            };
            if fails {
                proof {
                    lemma_apply_all_extends(start.tables, sv.take(i as int), start.ticks);
                }
                self.builds.truncate(n_builds);
                self.observations.truncate(n_observations);
                self.assets.truncate(n_assets);
                proof {
                    assert(self@.tables.builds =~= start.tables.builds);
                    assert(self@.tables.observations =~= start.tables.observations);
                    assert(self@.tables.assets =~= start.tables.assets);
                    assert(self@.tables == start.tables);
                    assert(failure_point(start, sv.len() as int) == Some(i as int));
                }
                self.ticks = self.ticks + 1;
                assert(self@.tables == start.tables);
                return Err(DetectionError::StoreFailure { statement: i as u64 });
            }
            self.run_statement(&stmts[i]);
            proof {
                assert(sv.take(i + 1).drop_last() =~= sv.take(i as int));
            }
            i = i + 1;
        }
        assert(sv.take(i as int) =~= sv);
        Ok(())
    }

    /// The build id of the latest observation on `branch`, or `None` when the
    /// branch was never observed.
    pub fn last_known_build_hash_on_branch(&self, branch: Branch) -> (r: Option<String>)
        ensures
            r is None <==> !observed_on(self@.tables.observations, branch),
            r matches Some(h) ==> (exists|i: int|
                is_latest(self@.tables.observations, branch, i)
                    && #[trigger] self@.tables.observations[i].build_id == h@),
    {
        let ghost obs = self@.tables.observations;
        let mut best: Option<usize> = None;
        let mut i: usize = 0;
        while i < self.observations.len()
            invariant
                i <= self.observations@.len(),
                obs == self@.tables.observations,
                best is None ==> forall|j: int| 0 <= j < i ==> #[trigger] obs[j].branch != branch,
                best matches Some(b) ==> b < i && obs[b as int].branch == branch && forall|j: int|
                    0 <= j < i && #[trigger] obs[j].branch == branch ==> obs[j].detected_at
                        <= obs[b as int].detected_at,
            decreases self.observations@.len() - i,
        {
            let row = &self.observations[i];
            assert(obs[i as int] == row@);
            if row.branch == branch {
                match best {
                    None => {
                        best = Some(i);
                    },
                    Some(b) => {
                        if row.detected_at >= self.observations[b].detected_at {
                            best = Some(i);
                        }
                    },
                }
            }
            i = i + 1;
        }
        match best {
            None => None,
            Some(b) => {
                assert(is_latest(obs, branch, b as int));
                let h = self.observations[b].build_id.clone();
                assert(obs[b as int] == self.observations@[b as int]@);
                assert(obs[b as int].build_id == h@);
                Some(h)
            },
        }
    }

    /// Records that `build` was seen on `branch`, in one transaction: the
    /// build is inserted unless its id is known (a known build keeps its
    /// number), and a new observation is appended. A build number beyond the
    /// 32-bit signed range is refused before the store is touched.
    pub fn detected_build_change_on_branch(&mut self, build: &Build, branch: Branch) -> (r: Result<(), DetectionError>)
        requires
            old(self).wf(),
            old(self)@.ticks + 2 <= u64::MAX,
        ensures
            final(self).wf(),
            build.number > MAX_BUILD_NUMBER ==> r == Err::<(), DetectionError>(
                DetectionError::BuildNumberOutOfRange { number: build.number },
            ) && final(self)@ == old(self)@,
            build.number <= MAX_BUILD_NUMBER ==> transaction_outcome(
                old(self)@,
                final(self)@,
                r,
                build_plan(build.hash@, build.number as i32, branch),
            ),
    {
        match plan_build_on_branch(build, branch) {
            Ok(plan) => {
                assert(plan@.len() == statement_views(plan@).len());
                self.run_transaction(&plan)
            },
            Err(e) => Err(e),
        }
    }

    /// Records the assets of `build`, in one transaction: stylesheets as
    /// surface assets, scripts with the roles taken by position from `roles`
    /// (in canonical form). A script past the last role is not recorded. An
    /// asset already recorded for the build is left as it is.
    pub fn detected_assets(&mut self, build: &Build, assets: &Vec<Asset>, roles: &Vec<String>) -> (r: Result<(), DetectionError>)
        requires
            old(self).wf(),
            old(self)@.ticks + assets@.len() <= u64::MAX,
        ensures
            final(self).wf(),
            transaction_outcome(
                old(self)@,
                final(self)@,
                r,
                asset_plan(build.hash@, assets@, canonical_roles(roles@)),
            ),
    {
        let plan = plan_detected_assets(build, assets, roles);
        proof {
            lemma_classification_len(assets@, canonical_roles(roles@));
            assert(plan@.len() == statement_views(plan@).len());
        }
        self.run_transaction(&plan)
    }
}

} // verus!
