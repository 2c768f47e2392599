use vstd::prelude::*;
use crate::model::{Asset, AssetType, Branch};
use crate::classify::{classification, lemma_classification_len, of_type, stylesheet_part, script_part};
use crate::plan::{
    AssetRowView, ObservationRowView, StatementView, asset_plan, asset_row_view, build_plan,
    canonical_roles,
};
use crate::store::{
    Tables, apply, apply_all, has_asset, is_latest, lemma_apply_all_extends, lemma_apply_all_wf, lemma_wf_later,
    observed_on, tables_wf,
};

verus! {

proof fn lemma_two_statements(t: Tables, s: Seq<StatementView>, tick: int)
    requires
        s.len() == 2,
    ensures
        apply_all(t, s, tick) == apply(apply(t, s[0], tick as u64), s[1], (tick + 1) as u64),
{
    assert(s.drop_last().drop_last() =~= Seq::<StatementView>::empty());
    assert(s.drop_last().last() == s[0]);
    assert(apply_all(t, s.drop_last().drop_last(), tick) == t);
    assert(apply_all(t, s.drop_last(), tick) == apply(t, s[0], tick as u64));
}

/// Recording the same build on the same branch twice leaves one row for the
/// build, made by the first call, and appends one observation per call.
pub proof fn law_build_recorded_twice(
    t: Tables,
    ticks: int,
    hash: Seq<char>,
    number: i32,
    branch: Branch,
    second: int,
)
    requires
        tables_wf(t, ticks),
        0 <= ticks,
        ticks + 2 <= second,
        second + 2 <= u64::MAX,
    ensures
        ({
            let once = apply_all(t, build_plan(hash, number, branch), ticks);
            let twice = apply_all(once, build_plan(hash, number, branch), second);
            &&& twice.builds == once.builds
            &&& exists|i: int| 0 <= i < twice.builds.len() && #[trigger] twice.builds[i].build_id == hash
            &&& forall|i: int, j: int|
                0 <= i < twice.builds.len() && 0 <= j < twice.builds.len() && #[trigger] twice.builds[i].build_id
                    == hash && #[trigger] twice.builds[j].build_id == hash ==> i == j
            &&& twice.observations == t.observations + seq![
                ObservationRowView { build_id: hash, branch, detected_at: (ticks + 1) as u64 },
                ObservationRowView { build_id: hash, branch, detected_at: (second + 1) as u64 },
            ]
        }),
{
    let plan = build_plan(hash, number, branch);
    let once = apply_all(t, plan, ticks);
    lemma_two_statements(t, plan, ticks);
    lemma_two_statements(once, plan, second);
    lemma_apply_all_wf(t, plan, ticks);
    let twice = apply_all(once, plan, second);
    let after_build = apply(t, plan[0], ticks as u64);
    if !crate::store::has_build(t.builds, hash) {
        assert(after_build.builds.last().build_id == hash);
    }
    assert(crate::store::has_build(once.builds, hash));
    assert(twice.builds == once.builds);
    assert(twice.observations =~= t.observations + seq![
        ObservationRowView { build_id: hash, branch, detected_at: (ticks + 1) as u64 },
        ObservationRowView { build_id: hash, branch, detected_at: (second + 1) as u64 },
    ]);
    lemma_apply_all_wf(once, plan, second);
    assert forall|i: int, j: int|
        0 <= i < twice.builds.len() && 0 <= j < twice.builds.len() && #[trigger] twice.builds[i].build_id
            == hash && #[trigger] twice.builds[j].build_id == hash implies i == j by {
        if i < j {
            assert(twice.builds[i].build_id != twice.builds[j].build_id);
        } else if j < i {
            assert(twice.builds[j].build_id != twice.builds[i].build_id);
        }
    }
}

/// After two recordings on a branch, the second one's build is the latest
/// observation on that branch.
pub proof fn law_latest_observation_wins(
    t: Tables,
    ticks: int,
    first: Seq<char>,
    first_number: i32,
    second_build: Seq<char>,
    second_number: i32,
    branch: Branch,
    second: int,
)
    requires
        tables_wf(t, ticks),
        0 <= ticks,
        ticks + 2 <= second,
        second + 2 <= u64::MAX,
    ensures
        ({
            let once = apply_all(t, build_plan(first, first_number, branch), ticks);
            let obs = apply_all(once, build_plan(second_build, second_number, branch), second).observations;
            &&& observed_on(obs, branch)
            &&& forall|i: int| #[trigger] is_latest(obs, branch, i) ==> obs[i].build_id == second_build
        }),
{
    let p1 = build_plan(first, first_number, branch);
    let p2 = build_plan(second_build, second_number, branch);
    let once = apply_all(t, p1, ticks);
    lemma_two_statements(t, p1, ticks);
    lemma_two_statements(once, p2, second);
    lemma_apply_all_wf(t, p1, ticks);
    lemma_apply_all_wf(once, p2, second);
    let obs = apply_all(once, p2, second).observations;
    let last = obs.len() - 1;
    assert(obs[last].branch == branch);
    assert(obs[last].build_id == second_build);
    assert forall|i: int| #[trigger] is_latest(obs, branch, i) implies obs[i].build_id == second_build by {
        if i != last {
            assert(obs[last].detected_at <= obs[i].detected_at);
            assert(obs[i].detected_at < obs[last].detected_at);
        }
    }
}

pub open spec fn asset_key_present(assets: Seq<AssetRowView>, s: StatementView) -> bool {
    match s {
        StatementView::InsertAsset(row) => has_asset(assets, row.build_id, row.name),
        _ => true,
    }
}

proof fn lemma_present_in_extension(a: Seq<AssetRowView>, b: Seq<AssetRowView>, s: StatementView)
    requires
        asset_key_present(a, s),
        a.len() <= b.len(),
        b.subrange(0, a.len() as int) == a,
    ensures
        asset_key_present(b, s),
{
    if let StatementView::InsertAsset(row) = s {
        let i = choose|i: int| 0 <= i < a.len() && #[trigger] a[i].build_id == row.build_id && a[i].name == row.name;
        assert(b[i] == b.subrange(0, a.len() as int)[i]);
        assert(b[i].build_id == row.build_id);
    }
}

/// Every asset a plan inserts is recorded once the plan has run.
proof fn lemma_asset_keys_present(t: Tables, plan: Seq<StatementView>, tick: int)
    ensures
        forall|k: int| 0 <= k < plan.len() ==> asset_key_present(apply_all(t, plan, tick).assets, #[trigger] plan[k]),
    decreases plan.len(),
{
    if plan.len() > 0 {
        let prev = plan.drop_last();
        lemma_asset_keys_present(t, prev, tick);
        let p = apply_all(t, prev, tick);
        let n = apply_all(t, plan, tick);
        assert(n == apply(p, plan.last(), (tick + plan.len() - 1) as u64));
        lemma_apply_all_extends(p, seq![plan.last()], tick + plan.len() - 1);
        assert(seq![plan.last()].drop_last() =~= Seq::<StatementView>::empty());
        assert(apply_all(p, seq![plan.last()].drop_last(), tick + plan.len() - 1) == p);
        assert(seq![plan.last()].last() == plan.last());
        assert(apply_all(p, seq![plan.last()], tick + plan.len() - 1) == n);
        assert forall|k: int| 0 <= k < plan.len() implies asset_key_present(n.assets, #[trigger] plan[k]) by {
            if k < plan.len() - 1 {
                assert(plan[k] == prev[k]);
                lemma_present_in_extension(p.assets, n.assets, plan[k]);
            } else if let StatementView::InsertAsset(row) = plan[k] {
                if !has_asset(p.assets, row.build_id, row.name) {
                    assert(n.assets[p.assets.len() as int] == row);
                }
            }
        }
    }
}

/// A plan of asset inserts whose assets are all recorded changes nothing.
proof fn lemma_present_assets_unchanged(t: Tables, plan: Seq<StatementView>, tick: int)
    requires
        forall|k: int| 0 <= k < plan.len() ==> (#[trigger] plan[k]) is InsertAsset && asset_key_present(t.assets, plan[k]),
    ensures
        apply_all(t, plan, tick) == t,
    decreases plan.len(),
{
    if plan.len() > 0 {
        let prev = plan.drop_last();
        assert forall|k: int| 0 <= k < prev.len() implies (#[trigger] prev[k]) is InsertAsset && asset_key_present(t.assets, prev[k]) by {
            assert(prev[k] == plan[k]);
        }
        lemma_present_assets_unchanged(t, prev, tick);
        assert(plan.last() == plan[plan.len() - 1]);
    }
}

/// Recording the same assets of a build twice adds no duplicate row and
/// leaves every row of the first call as it was, whatever roles the second
/// call gives; with no more roles than the first call, it changes nothing.
pub proof fn law_assets_recorded_twice(
    t: Tables,
    ticks: int,
    hash: Seq<char>,
    assets: Seq<Asset>,
    first_roles: Seq<String>,
    second_roles: Seq<String>,
    second: int,
)
    requires
        tables_wf(t, ticks),
        0 <= ticks,
        ticks + assets.len() <= second,
        second + assets.len() <= u64::MAX,
    ensures
        ({
            let once = apply_all(t, asset_plan(hash, assets, canonical_roles(first_roles)), ticks);
            let twice = apply_all(once, asset_plan(hash, assets, canonical_roles(second_roles)), second);
            &&& twice.assets.subrange(0, once.assets.len() as int) == once.assets
            &&& forall|i: int, j: int|
                0 <= i < j < twice.assets.len() ==> !(#[trigger] twice.assets[i].build_id
                    == #[trigger] twice.assets[j].build_id && twice.assets[i].name == twice.assets[j].name)
            &&& second_roles.len() <= first_roles.len() ==> twice == once
        }),
{
    let r1 = canonical_roles(first_roles);
    let r2 = canonical_roles(second_roles);
    let p1 = asset_plan(hash, assets, r1);
    let p2 = asset_plan(hash, assets, r2);
    let c1 = classification(assets, r1);
    let c2 = classification(assets, r2);
    lemma_classification_len(assets, r1);
    lemma_classification_len(assets, r2);
    let once = apply_all(t, p1, ticks);
    lemma_apply_all_wf(t, p1, ticks);
    lemma_wf_later(once, ticks + p1.len(), second);
    lemma_apply_all_wf(once, p2, second);
    lemma_apply_all_extends(once, p2, second);
    if second_roles.len() <= first_roles.len() {
        lemma_asset_keys_present(t, p1, ticks);
        let css = stylesheet_part(assets).len();
        assert forall|k: int| 0 <= k < p2.len() implies (#[trigger] p2[k]) is InsertAsset && asset_key_present(once.assets, p2[k]) by {
            assert(c2[k].0 == c1[k].0) by {
                if k >= css {
                    assert(c2[k] == script_part(assets, r2)[k - css]);
                    assert(c1[k] == script_part(assets, r1)[k - css]);
                }
            }
            assert(p1[k] == StatementView::InsertAsset(asset_row_view(hash, c1[k])));
            assert(asset_key_present(once.assets, p1[k]));
        }
        lemma_present_assets_unchanged(once, p2, second);
    }
}

proof fn lemma_of_type_contains(assets: Seq<Asset>, typ: AssetType, i: int)
    requires
        0 <= i < assets.len(),
        assets[i].typ == typ,
    ensures
        exists|j: int| 0 <= j < of_type(assets, typ).len() && #[trigger] of_type(assets, typ)[j] == assets[i],
    decreases assets.len(),
{
    let prev = assets.drop_last();
    if i == assets.len() - 1 {
        let j = of_type(prev, typ).len() as int;
        assert(of_type(assets, typ)[j] == assets[i]);
    } else {
        assert(prev[i] == assets[i]);
        lemma_of_type_contains(prev, typ, i);
        let j = choose|j: int| 0 <= j < of_type(prev, typ).len() && #[trigger] of_type(prev, typ)[j] == prev[i];
        assert(of_type(assets, typ)[j] == assets[i]);
    }
}

/// Every stylesheet of a manifest is recorded as a surface asset with no
/// script role, wherever it stands and whatever the roles are.
pub proof fn law_stylesheets_are_surface(hash: Seq<char>, assets: Seq<Asset>, roles: Seq<String>, i: int)
    requires
        0 <= i < assets.len(),
        assets[i].typ == AssetType::Stylesheet,
    ensures
        exists|k: int|
            0 <= k < asset_plan(hash, assets, canonical_roles(roles)).len()
                && #[trigger] asset_plan(hash, assets, canonical_roles(roles))[k] == StatementView::InsertAsset(
                AssetRowView { build_id: hash, name: assets[i].name@, surface: true, script_type: None },
            ),
{
    let plan = asset_plan(hash, assets, canonical_roles(roles));
    let c = classification(assets, canonical_roles(roles));
    lemma_of_type_contains(assets, AssetType::Stylesheet, i);
    let css = of_type(assets, AssetType::Stylesheet);
    let j = choose|j: int| 0 <= j < css.len() && #[trigger] css[j] == assets[i];
    assert(c[j] == stylesheet_part(assets)[j]);
    assert(plan[j] == StatementView::InsertAsset(asset_row_view(hash, c[j])));
}

} // verus!
