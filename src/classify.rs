use vstd::prelude::*;
use crate::model::{Asset, AssetType};

verus! {

/// How an asset was classified when it was detected.
#[derive(Clone, Debug)]
pub enum DetectedAssetKind {
    /// Reachable only through surface assets; no write path produces it yet.
    Deep,
    /// A top-level asset with no finer role, such as a stylesheet.
    Surface,
    /// A top-level script with the role it was assigned.
    SurfaceScript(String),
}

/// The mathematical form of a [`DetectedAssetKind`].
pub enum KindView {
    Deep,
    Surface,
    SurfaceScript(Seq<char>),
}

impl View for DetectedAssetKind {
    type V = KindView;

    open spec fn view(&self) -> KindView {
        match self {
            DetectedAssetKind::Deep => KindView::Deep,
            DetectedAssetKind::Surface => KindView::Surface,
            DetectedAssetKind::SurfaceScript(role) => KindView::SurfaceScript(role@),
        }
    }
}

pub open spec fn kind_is_surface(k: KindView) -> bool {
    !(k is Deep)
}

pub open spec fn kind_role(k: KindView) -> Option<Seq<char>> {
    match k {
        KindView::SurfaceScript(role) => Some(role),
        _ => None,
    }
}

impl DetectedAssetKind {
    /// Whether the asset is a top-level one.
    pub fn is_surface(&self) -> (r: bool)
        ensures
            r == kind_is_surface(self@),
    {
        match self {
            DetectedAssetKind::Deep => false,
            _ => true,
        }
    }

    /// The script role, present for a surface script only.
    pub fn script_type(&self) -> (r: Option<String>)
        ensures
            r matches Some(s) ==> kind_role(self@) == Some(s@),
            r is None ==> kind_role(self@) is None,
    {
        match self {
            DetectedAssetKind::SurfaceScript(role) => Some(role.clone()),
            _ => None,
        }
    }
}

/// An asset of a build together with its classification.
#[derive(Clone, Debug)]
pub struct DetectedAsset {
    pub name: String,
    pub kind: DetectedAssetKind,
}

impl View for DetectedAsset {
    type V = (Seq<char>, KindView);

    open spec fn view(&self) -> (Seq<char>, KindView) {
        (self.name@, self.kind@)
    }
}

/// The assets of the given type, in manifest order.
pub open spec fn of_type(assets: Seq<Asset>, typ: AssetType) -> Seq<Asset>
    decreases assets.len(),
{
    if assets.len() == 0 {
        Seq::empty()
    } else {
        let rest = of_type(assets.drop_last(), typ);
        if assets.last().typ == typ {
            rest.push(assets.last())
        } else {
            rest
        }
    }
}

pub open spec fn min_len(a: int, b: int) -> int {
    if a <= b { a } else { b }
}

/// The stylesheets, each as a plain surface asset, in manifest order.
pub open spec fn stylesheet_part(assets: Seq<Asset>) -> Seq<(Seq<char>, KindView)> {
    of_type(assets, AssetType::Stylesheet).map_values(|a: Asset| (a.name@, KindView::Surface))
}

/// The scripts paired by position with the roles; scripts past the last role
/// are left out.
pub open spec fn script_part(assets: Seq<Asset>, roles: Seq<Seq<char>>) -> Seq<(Seq<char>, KindView)> {
    let scripts = of_type(assets, AssetType::Script);
    Seq::new(
        min_len(scripts.len() as int, roles.len() as int) as nat,
        |j: int| (scripts[j].name@, KindView::SurfaceScript(roles[j])),
    )
}

/// What detection records for a manifest: every stylesheet as a surface
/// asset, then the scripts paired by position with the roles.
pub open spec fn classification(assets: Seq<Asset>, roles: Seq<Seq<char>>) -> Seq<(Seq<char>, KindView)> {
    stylesheet_part(assets) + script_part(assets, roles)
}

pub open spec fn string_views(s: Seq<String>) -> Seq<Seq<char>> {
    s.map_values(|x: String| x@)
}

pub open spec fn detected_views(s: Seq<DetectedAsset>) -> Seq<(Seq<char>, KindView)> {
    s.map_values(|d: DetectedAsset| d@)
}

proof fn lemma_of_type_step(assets: Seq<Asset>, i: int, typ: AssetType)
    requires
        0 <= i < assets.len(),
    ensures
        of_type(assets.take(i + 1), typ) == (if assets[i].typ == typ {
            of_type(assets.take(i), typ).push(assets[i])
        } else {
            of_type(assets.take(i), typ)
        }),
{
    assert(assets.take(i + 1).drop_last() =~= assets.take(i));
}

proof fn lemma_of_type_len(assets: Seq<Asset>, typ: AssetType)
    ensures
        of_type(assets, typ).len() <= assets.len(),
    decreases assets.len(),
{
    if assets.len() > 0 {
        lemma_of_type_len(assets.drop_last(), typ);
    }
}

proof fn lemma_of_types_len(assets: Seq<Asset>)
    ensures
        of_type(assets, AssetType::Stylesheet).len() + of_type(assets, AssetType::Script).len()
            <= assets.len(),
    decreases assets.len(),
{
    if assets.len() > 0 {
        lemma_of_types_len(assets.drop_last());
    }
}

/// Detection records at most one asset for each asset of the manifest.
pub proof fn lemma_classification_len(assets: Seq<Asset>, roles: Seq<Seq<char>>)
    ensures
        classification(assets, roles).len() <= assets.len(),
{
    lemma_of_types_len(assets);
}

/// Classifies the assets of a manifest: stylesheets become surface assets,
/// and scripts take the roles by position (first script, first role). A
/// script beyond the last role is not classified and is left out entirely.
pub fn classify_assets(assets: &Vec<Asset>, roles: &Vec<String>) -> (r: Vec<DetectedAsset>)
    ensures
        detected_views(r@) == classification(assets@, string_views(roles@)),
{
    let ghost roles_v = string_views(roles@);
    let mut out: Vec<DetectedAsset> = Vec::new();
    let mut i: usize = 0;
    while i < assets.len()
        invariant
            i <= assets@.len(),
            detected_views(out@) == stylesheet_part(assets@.take(i as int)),
        decreases assets@.len() - i,
    {
        proof {
            lemma_of_type_step(assets@, i as int, AssetType::Stylesheet);
        }
        let ghost prev = out@;
        let asset = &assets[i];
        if asset.typ == AssetType::Stylesheet {
            out.push(DetectedAsset { name: asset.name.clone(), kind: DetectedAssetKind::Surface });
            assert(detected_views(out@) =~= detected_views(prev).push((asset.name@, KindView::Surface)));
        }
        proof {
            assert(detected_views(out@) =~= stylesheet_part(assets@.take(i + 1)));
        }
        i = i + 1;
    }
    assert(assets@.take(i as int) =~= assets@);
    let ghost css = detected_views(out@);
    let mut k: usize = 0;
    i = 0;
    while i < assets.len()
        invariant
            i <= assets@.len(),
            roles_v == string_views(roles@),
            k == of_type(assets@.take(i as int), AssetType::Script).len(),
            css == stylesheet_part(assets@),
            detected_views(out@) == css + script_part(assets@.take(i as int), roles_v),
        decreases assets@.len() - i,
    {
        proof {
            lemma_of_type_step(assets@, i as int, AssetType::Script);
            lemma_of_type_len(assets@.take(i as int), AssetType::Script);
        }
        let ghost prev = out@;
        let asset = &assets[i];
        if asset.typ == AssetType::Script {
            if k < roles.len() {
                out.push(
                    DetectedAsset {
                        name: asset.name.clone(),
                        kind: DetectedAssetKind::SurfaceScript(roles[k].clone()),
                    },
                );
                assert(detected_views(out@) =~= detected_views(prev).push(
                    (asset.name@, KindView::SurfaceScript(roles_v[k as int])),
                ));
            }
            k = k + 1;
        }
        proof {
            assert(detected_views(out@) =~= css + script_part(assets@.take(i + 1), roles_v));
        }
        i = i + 1;
    }
    assert(assets@.take(i as int) =~= assets@);
    out
}

} // verus!
