use vstd::prelude::*;
use crate::model::{Asset, Branch, Build, DetectionError, MAX_BUILD_NUMBER, store_build_number};
use crate::classify::{
    DetectedAsset, KindView, classification, classify_assets, detected_views, kind_is_surface,
    kind_role, string_views,
};

verus! {

/// A row of the builds table.
#[derive(Clone, Debug)]
pub struct BuildRow {
    pub build_id: String,
    pub build_number: i32,
}

pub struct BuildRowView {
    pub build_id: Seq<char>,
    pub build_number: i32,
}

impl View for BuildRow {
    type V = BuildRowView;

    open spec fn view(&self) -> BuildRowView {
        BuildRowView { build_id: self.build_id@, build_number: self.build_number }
    }
}

/// A row of the branch observations table: a build seen on a branch at a
/// time that the store assigned.
#[derive(Clone, Debug)]
pub struct ObservationRow {
    pub build_id: String,
    pub branch: Branch,
    pub detected_at: u64,
}

pub struct ObservationRowView {
    pub build_id: Seq<char>,
    pub branch: Branch,
    pub detected_at: u64,
}

impl View for ObservationRow {
    type V = ObservationRowView;

    open spec fn view(&self) -> ObservationRowView {
        ObservationRowView {
            build_id: self.build_id@,
            branch: self.branch,
            detected_at: self.detected_at,
        }
    }
}

/// A row of the detected assets table. At most one row exists for each
/// pair of build and asset name.
#[derive(Clone, Debug)]
pub struct AssetRow {
    pub build_id: String,
    pub name: String,
    pub surface: bool,
    pub script_type: Option<String>,
}

pub struct AssetRowView {
    pub build_id: Seq<char>,
    pub name: Seq<char>,
    pub surface: bool,
    pub script_type: Option<Seq<char>>,
}

pub open spec fn option_view(o: Option<String>) -> Option<Seq<char>> {
    match o {
        Some(s) => Some(s@),
        None => None,
    }
}

impl View for AssetRow {
    type V = AssetRowView;

    open spec fn view(&self) -> AssetRowView {
        AssetRowView {
            build_id: self.build_id@,
            name: self.name@,
            surface: self.surface,
            script_type: option_view(self.script_type),
        }
    }
}

/// One write of a transaction.
#[derive(Clone, Debug)]
pub enum Statement {
    /// Inserts a build unless one with the same id exists.
    InsertBuild { build_id: String, build_number: i32 },
    /// Appends an observation of a build on a branch, stamped by the store.
    InsertObservation { build_id: String, branch: Branch },
    /// Inserts an asset row unless one with the same build and name exists.
    InsertAsset(AssetRow),
}

pub enum StatementView {
    InsertBuild { build_id: Seq<char>, build_number: i32 },
    InsertObservation { build_id: Seq<char>, branch: Branch },
    InsertAsset(AssetRowView),
}

impl View for Statement {
    type V = StatementView;

    open spec fn view(&self) -> StatementView {
        match self {
            Statement::InsertBuild { build_id, build_number } => StatementView::InsertBuild {
                build_id: build_id@,
                build_number: *build_number,
            },
            Statement::InsertObservation { build_id, branch } => StatementView::InsertObservation {
                build_id: build_id@,
                branch: *branch,
            },
            Statement::InsertAsset(row) => StatementView::InsertAsset(row@),
        }
    }
}

pub open spec fn statement_views(s: Seq<Statement>) -> Seq<StatementView> {
    s.map_values(|x: Statement| x@)
}

/// The writes that record a build seen on a branch.
pub open spec fn build_plan(build_id: Seq<char>, build_number: i32, branch: Branch) -> Seq<StatementView> {
    seq![
        StatementView::InsertBuild { build_id, build_number },
        StatementView::InsertObservation { build_id, branch },
    ]
}

/// The row that records a classified asset of a build.
pub open spec fn asset_row_view(build_id: Seq<char>, d: (Seq<char>, KindView)) -> AssetRowView {
    AssetRowView {
        build_id,
        name: d.0,
        surface: kind_is_surface(d.1),
        script_type: kind_role(d.1),
    }
}

/// The writes that record the classified assets of a build.
pub open spec fn asset_plan(build_id: Seq<char>, assets: Seq<Asset>, roles: Seq<Seq<char>>) -> Seq<StatementView> {
    classification(assets, roles).map_values(
        |d: (Seq<char>, KindView)| StatementView::InsertAsset(asset_row_view(build_id, d)),
    )
}

/// What the store's canonical form of a role label is.
pub uninterp spec fn lowercase_of(s: Seq<char>) -> Seq<char>;

/// Relies on `str::to_lowercase`: the lower case form of a label, which
/// depends on the label's characters alone.
#[verifier::external_body]
fn lowercase(s: &String) -> (r: String)
    ensures
        r@ == lowercase_of(s@),
{
    s.to_lowercase()
}

/// The role labels in the canonical form the store keeps.
pub open spec fn canonical_roles(roles: Seq<String>) -> Seq<Seq<char>> {
    roles.map_values(|s: String| lowercase_of(s@))
}

/// Brings each role label into the store's canonical (lower case) form.
pub fn canonicalize_roles(roles: &Vec<String>) -> (r: Vec<String>)
    ensures
        string_views(r@) == canonical_roles(roles@),
{
    let mut out: Vec<String> = Vec::new();
    let mut i: usize = 0;
    while i < roles.len()
        invariant
            i <= roles@.len(),
            string_views(out@) == canonical_roles(roles@.take(i as int)),
        decreases roles@.len() - i,
    {
        let ghost prev = out@;
        out.push(lowercase(&roles[i]));
        proof {
            assert(string_views(out@) =~= string_views(prev).push(lowercase_of(roles@[i as int]@)));
            assert(roles@.take(i + 1) =~= roles@.take(i as int).push(roles@[i as int]));
            assert(canonical_roles(roles@.take(i + 1)) =~= canonical_roles(roles@.take(i as int)).push(
                lowercase_of(roles@[i as int]@),
            ));
        }
        i = i + 1;
    }
    assert(roles@.take(i as int) =~= roles@);
    out
}

/// The writes that record a build seen on a branch: insert the build unless
/// it is known, then append an observation. A build number that does not
/// fit the store's column is refused before any write is planned.
pub fn plan_build_on_branch(build: &Build, branch: Branch) -> (r: Result<Vec<Statement>, DetectionError>)
    ensures
        build.number > MAX_BUILD_NUMBER ==> r == Err::<Vec<Statement>, DetectionError>(
            DetectionError::BuildNumberOutOfRange { number: build.number },
        ),
        build.number <= MAX_BUILD_NUMBER ==> (r matches Ok(plan) && statement_views(plan@)
            == build_plan(build.hash@, build.number as i32, branch)),
{
    let number = match store_build_number(build.number) {
        Ok(n) => n,
        Err(e) => {
            return Err(e);
        },
    };
    let mut plan: Vec<Statement> = Vec::new();
    plan.push(Statement::InsertBuild { build_id: build.hash.clone(), build_number: number });
    plan.push(Statement::InsertObservation { build_id: build.hash.clone(), branch });
    assert(statement_views(plan@) =~= build_plan(build.hash@, build.number as i32, branch));
    Ok(plan)
}

/// The row that records a classified asset of a build.
pub fn asset_row(build_id: &String, detected: &DetectedAsset) -> (r: AssetRow)
    ensures
        r@ == asset_row_view(build_id@, detected@),
{
    AssetRow {
        build_id: build_id.clone(),
        name: detected.name.clone(),
        surface: detected.kind.is_surface(),
        script_type: detected.kind.script_type(),
    }
}

/// The writes that record the assets of a build, classified against the
/// role labels in canonical form.
pub fn plan_detected_assets(build: &Build, assets: &Vec<Asset>, roles: &Vec<String>) -> (r: Vec<Statement>)
    ensures
        statement_views(r@) == asset_plan(build.hash@, assets@, canonical_roles(roles@)),
{
    let canonical = canonicalize_roles(roles);
    let detected = classify_assets(assets, &canonical);
    let ghost d = detected_views(detected@);
    let mut plan: Vec<Statement> = Vec::new();
    let mut i: usize = 0;
    while i < detected.len()
        invariant
            i <= detected@.len(),
            d == detected_views(detected@),
            statement_views(plan@) == d.take(i as int).map_values(
                |x: (Seq<char>, KindView)| StatementView::InsertAsset(asset_row_view(build.hash@, x)),
            ),
        decreases detected@.len() - i,
    {
        let ghost prev = plan@;
        let row = asset_row(&build.hash, &detected[i]);
        plan.push(Statement::InsertAsset(row));
        proof {
            assert(d.take(i + 1) =~= d.take(i as int).push(d[i as int]));
            assert(statement_views(plan@) =~= statement_views(prev).push(
                StatementView::InsertAsset(asset_row_view(build.hash@, d[i as int])),
            ));
            assert(statement_views(plan@) =~= d.take(i + 1).map_values(
                |x: (Seq<char>, KindView)| StatementView::InsertAsset(asset_row_view(build.hash@, x)),
            ));
        }
        i = i + 1;
    }
    assert(d.take(i as int) =~= d);
    plan
}

} // verus!
