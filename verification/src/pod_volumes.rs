//! Fetching what the volumes of a pod are made of.

use vstd::prelude::*;
use crate::json::{Doc, Json};
use crate::keyed::KeyTable;
use crate::resource::{self, KeyView, ResourceKey};

verus! {

/// What a volume of a pod is made of.
#[derive(Debug)]
pub enum VolumeNeed {
    /// The entries of a config map.
    ConfigMap { name: String },
    /// The entries of a secret.
    Secret { name: String },
    /// The volume that a claim is bound to.
    Pvc { claim_name: String },
    /// Nothing that is fetched.
    Other,
}

/// What a `VolumeNeed` stands for.
pub enum NeedView {
    ConfigMap { name: Seq<char> },
    Secret { name: Seq<char> },
    Pvc { claim_name: Seq<char> },
    Other,
}

impl View for VolumeNeed {
    type V = NeedView;

    open spec fn view(&self) -> NeedView {
        match self {
            VolumeNeed::ConfigMap { name } => NeedView::ConfigMap { name: name@ },
            VolumeNeed::Secret { name } => NeedView::Secret { name: name@ },
            VolumeNeed::Pvc { claim_name } => NeedView::Pvc { claim_name: claim_name@ },
            VolumeNeed::Other => NeedView::Other,
        }
    }
}

/// What a list of needs stands for.
pub open spec fn need_views(v: Seq<VolumeNeed>) -> Seq<NeedView> {
    v.map_values(|n: VolumeNeed| n@)
}

/// The object that a volume is made of, where it names one.
pub open spec fn need_key(namespace: Seq<char>, need: NeedView) -> Option<KeyView> {
    let (kind, name) = match need {
        NeedView::ConfigMap { name } => ("ConfigMap"@, name),
        NeedView::Secret { name } => ("Secret"@, name),
        NeedView::Pvc { claim_name } => ("PersistentVolumeClaim"@, claim_name),
        NeedView::Other => (""@, Seq::empty()),
    };
    if name.len() == 0 {
        None
    } else {
        Some(resource::key_in(""@, "v1"@, kind, namespace, name))
    }
}

fn key_of_need(namespace: &str, need: &VolumeNeed) -> (r: Option<ResourceKey>)
    ensures
        match r {
            Some(k) => need_key(namespace@, need@) == Some(k@),
            None => need_key(namespace@, need@) is None,
        },
{
    let (kind, name): (&str, &str) = match need {
        VolumeNeed::ConfigMap { name } => ("ConfigMap", name.as_str()),
        VolumeNeed::Secret { name } => ("Secret", name.as_str()),
        VolumeNeed::Pvc { claim_name } => ("PersistentVolumeClaim", claim_name.as_str()),
        VolumeNeed::Other => {
            return None;
        },
    };
    if name.is_empty() {
        None
    } else {
        Some(ResourceKey::namespaced("", "v1", kind, namespace, name))
    }
}

/// The volume that a claim is bound to, where it is.
pub open spec fn bound_volume(claim: Doc) -> Option<KeyView> {
    match claim.str_at2("spec"@, "volumeName"@) {
        Some(n) => if n.len() == 0 {
            None
        } else {
            Some(
                KeyView {
                    group: ""@,
                    version: "v1"@,
                    kind: "PersistentVolume"@,
                    namespace: None,
                    name: n,
                },
            )
        },
        None => None,
    }
}

/// The volume that a claim is bound to, where it is.
pub fn bound_volume_key(claim: &Json) -> (r: Option<ResourceKey>)
    ensures
        match r {
            Some(k) => bound_volume(claim@) == Some(k@),
            None => bound_volume(claim@) is None,
        },
{
    match claim.str_at2("spec", "volumeName") {
        Some(n) => if n.is_empty() {
            None
        } else {
            Some(ResourceKey::cluster_scoped("", "v1", "PersistentVolume", n))
        },
        None => None,
    }
}

/// Fetching what the volumes of a pod are made of.
#[derive(Debug)]
pub struct VolumeFetch {
    pub namespace: String,
    /// What the volumes are made of, in order.
    pub needs: Vec<VolumeNeed>,
    pub at: usize,
    /// A claim that was fetched and whose volume is fetched next.
    pub claim: Option<Json>,
    /// What was fetched. What is not there is not in it.
    pub fetched: KeyTable<Json>,
}

/// What a `VolumeFetch` stands for.
#[verifier::ext_equal]
pub struct FetchView {
    pub namespace: Seq<char>,
    pub needs: Seq<NeedView>,
    pub at: int,
    pub claim: Option<Json>,
    pub fetched: Map<KeyView, Json>,
}

impl View for VolumeFetch {
    type V = FetchView;

    open spec fn view(&self) -> FetchView {
        FetchView {
            namespace: self.namespace@,
            needs: need_views(self.needs@),
            at: self.at as int,
            claim: self.claim,
            fetched: self.fetched@,
        }
    }
}

impl FetchView {
    /// The object that the volume at hand is made of.
    pub open spec fn key(self) -> Option<KeyView> {
        need_key(self.namespace, self.needs[self.at])
    }

    /// A fetch that can go on.
    pub open spec fn well_formed(self) -> bool {
        &&& 0 <= self.at <= self.needs.len()
        &&& self.at < self.needs.len() ==> self.key() is Some
        &&& self.claim matches Some(c) ==> self.at < self.needs.len()
            && self.needs[self.at] is Pvc && bound_volume(c@) is Some
    }
}

/// The fetch at the next volume that is made of an object.
pub open spec fn to_need(v: FetchView) -> FetchView
    decreases v.needs.len() - v.at,
{
    if 0 <= v.at < v.needs.len() && v.key() is None {
        to_need(FetchView { at: v.at + 1, ..v })
    } else {
        v
    }
}

/// The fetch with the object of the volume at hand, at the next one.
pub open spec fn kept(v: FetchView, value: Json) -> FetchView {
    to_need(
        FetchView {
            fetched: v.fetched.insert(v.key().unwrap(), value),
            claim: None,
            at: v.at + 1,
            ..v
        },
    )
}

/// What is fetched next.
pub open spec fn wanted(v: FetchView) -> Option<KeyView> {
    match v.claim {
        Some(c) => bound_volume(c@),
        None => if v.at < v.needs.len() {
            v.key()
        } else {
            None
        },
    }
}

/// The fetch once this was found. For a claim that is bound, its volume is fetched too.
pub open spec fn after_get(v: FetchView, value: Option<Json>) -> FetchView {
    match v.claim {
        Some(claim) => kept(
            match value {
                Some(volume) => FetchView {
                    fetched: v.fetched.insert(bound_volume(claim@).unwrap(), volume),
                    ..v
                },
                None => v,
            },
            claim,
        ),
        None => match value {
            None => to_need(FetchView { at: v.at + 1, ..v }),
            Some(found) => if v.needs[v.at] is Pvc && bound_volume(found@) is Some {
                FetchView { claim: Some(found), ..v }
            } else {
                kept(v, found)
            },
        },
    }
}

proof fn to_need_keeps_form(v: FetchView)
    requires
        0 <= v.at <= v.needs.len(),
        v.claim is None,
    ensures
        to_need(v).well_formed(),
        to_need(v).claim is None,
        to_need(v).fetched == v.fetched,
    decreases v.needs.len() - v.at,
{
    if v.at < v.needs.len() && v.key() is None {
        to_need_keeps_form(FetchView { at: v.at + 1, ..v });
    }
}

impl VolumeFetch {
    /// Fetching what the volumes of a pod in this namespace are made of.
    pub fn begin(namespace: &str, needs: Vec<VolumeNeed>) -> (r: VolumeFetch)
        ensures
            r@.well_formed(),
            r@ == to_need(
                FetchView {
                    namespace: namespace@,
                    needs: need_views(needs@),
                    at: 0,
                    claim: None,
                    fetched: Map::empty(),
                },
            ),
    {
        let mut out = VolumeFetch {
            namespace: namespace.to_owned(),
            needs,
            at: 0,
            claim: None,
            fetched: KeyTable::new(),
        };
        out.advance();
        out
    }

    fn advance(&mut self)
        requires
            old(self)@.at <= old(self)@.needs.len(),
            old(self)@.claim is None,
        ensures
            final(self)@ == to_need(old(self)@),
            final(self)@.well_formed(),
    {
        let ghost v = self@;
        proof {
            to_need_keeps_form(v);
        }
        while self.at < self.needs.len()
            invariant
                v == old(self)@,
                self@.at <= self@.needs.len(),
                to_need(self@) == to_need(v),
                to_need(v).well_formed(),
            decreases self@.needs.len() - self@.at,
        {
            let ghost was = self@;
            if key_of_need(self.namespace.as_str(), &self.needs[self.at]).is_some() {
                return ;
            }
            self.at = self.at + 1;
            assert(self@ =~= (FetchView { at: was.at + 1, ..was }));
        }
    }

    /// What is fetched next, if anything.
    pub fn call(&self) -> (r: Option<ResourceKey>)
        requires
            self@.well_formed(),
        ensures
            match r {
                Some(k) => wanted(self@) == Some(k@),
                None => wanted(self@) is None,
            },
    {
        match &self.claim {
            Some(c) => bound_volume_key(c),
            None => if self.at < self.needs.len() {
                key_of_need(self.namespace.as_str(), &self.needs[self.at])
            } else {
                None
            },
        }
    }

    /// Takes in what was found.
    pub fn got(&mut self, value: Option<Json>)
        requires
            old(self)@.well_formed(),
            wanted(old(self)@) is Some,
        ensures
            final(self)@ == after_get(old(self)@, value),
            final(self)@.well_formed(),
    {
        let ghost was = self@;
        assert(was.at < self.needs.len());
        let key = key_of_need(self.namespace.as_str(), &self.needs[self.at]);
        match self.claim.take() {
            Some(claim) => {
                if let (Some(volume), Some(pv)) = (value, bound_volume_key(&claim)) {
                    self.fetched.insert(&pv, volume);
                }
                if let Some(k) = key {
                    self.fetched.insert(&k, claim);
                }
                self.at = self.at + 1;
                self.advance();
            },
            None => match value {
                None => {
                    self.at = self.at + 1;
                    self.advance();
                },
                Some(found) => {
                    let is_claim = match &self.needs[self.at] {
                        VolumeNeed::Pvc { .. } => true,
                        _ => false,
                    };
                    if is_claim && bound_volume_key(&found).is_some() {
                        self.claim = Some(found);
                    } else {
                        if let Some(k) = key {
                            self.fetched.insert(&k, found);
                        }
                        self.at = self.at + 1;
                        self.advance();
                    }
                },
            },
        }
    }
}

// ---- laws ----------------------------------------------------------------------------------

/// Nothing is fetched for a pod without volumes.
pub proof fn no_volumes_fetch_nothing(namespace: Seq<char>)
    ensures
        wanted(
            to_need(
                FetchView {
                    namespace,
                    needs: Seq::empty(),
                    at: 0,
                    claim: None,
                    fetched: Map::empty(),
                },
            ),
        ) is None,
{
}

/// A claim that is bound is kept once its volume was asked for, whether or not that was there.
pub proof fn a_bound_claim_is_kept(v: FetchView, claim: Json, volume: Option<Json>)
    requires
        v.well_formed(),
        v.claim is None,
        v.at < v.needs.len(),
        v.needs[v.at] is Pvc,
        bound_volume(claim@) is Some,
    ensures
        wanted(after_get(v, Some(claim))) == bound_volume(claim@),
        after_get(after_get(v, Some(claim)), volume).fetched.dom().contains(v.key().unwrap()),
        after_get(after_get(v, Some(claim)), volume).fetched[v.key().unwrap()] == claim,
        volume matches Some(pv) ==> {
            let fetched = after_get(after_get(v, Some(claim)), volume).fetched;
            fetched.dom().contains(bound_volume(claim@).unwrap()) && fetched[bound_volume(
                claim@,
            ).unwrap()] == pv
        },
{
    let w = after_get(v, Some(claim));
    let inner = match volume {
        Some(pv) => FetchView {
            fetched: w.fetched.insert(bound_volume(claim@).unwrap(), pv),
            ..w
        },
        None => w,
    };
    to_need_keeps_form(
        FetchView {
            fetched: inner.fetched.insert(inner.key().unwrap(), claim),
            claim: None,
            at: inner.at + 1,
            ..inner
        },
    );
}

/// What a volume is made of is fetched from the namespace of the pod, by its kind and its name; a
/// volume that names nothing is made of nothing that is fetched.
pub proof fn what_a_volume_is_made_of(namespace: Seq<char>, name: Seq<char>)
    ensures
        name.len() > 0 ==> need_key(namespace, NeedView::ConfigMap { name }) == Some(
            resource::key_in(""@, "v1"@, "ConfigMap"@, namespace, name),
        ),
        name.len() > 0 ==> need_key(namespace, NeedView::Secret { name }) == Some(
            resource::key_in(""@, "v1"@, "Secret"@, namespace, name),
        ),
        name.len() > 0 ==> need_key(namespace, NeedView::Pvc { claim_name: name }) == Some(
            resource::key_in(""@, "v1"@, "PersistentVolumeClaim"@, namespace, name),
        ),
        need_key(namespace, NeedView::Other) is None,
        need_key(namespace, NeedView::ConfigMap { name: Seq::empty() }) is None,
        need_key(namespace, NeedView::Secret { name: Seq::empty() }) is None,
        need_key(namespace, NeedView::Pvc { claim_name: Seq::empty() }) is None,
{
}

/// A claim is bound exactly where it names a volume, which lives in no namespace.
pub proof fn what_a_claim_is_bound_to(claim: Doc)
    ensures
        match claim.str_at2("spec"@, "volumeName"@) {
            Some(n) => if n.len() > 0 {
                bound_volume(claim) matches Some(k) && k.name == n && k.kind
                    == "PersistentVolume"@ && k.namespace is None && k.version == "v1"@
                    && k.group == ""@
            } else {
                bound_volume(claim) is None
            },
            None => bound_volume(claim) is None,
        },
{
}

proof fn to_need_goes_to(v: FetchView)
    requires
        0 <= v.at <= v.needs.len(),
    ensures
        ({
            let w = to_need(v);
            &&& v.at <= w.at <= v.needs.len()
            &&& forall|i: int|
                v.at <= i < w.at ==> need_key(v.namespace, #[trigger] v.needs[i]) is None
            &&& w.at < v.needs.len() ==> need_key(v.namespace, v.needs[w.at]) is Some
            &&& w == (FetchView { at: w.at, ..v })
        }),
    decreases v.needs.len() - v.at,
{
    if v.at < v.needs.len() && v.key() is None {
        to_need_goes_to(FetchView { at: v.at + 1, ..v });
    }
}

/// What was found is kept under its key, what was not is passed over, and nothing that was kept is
/// lost. The next volume that is made of something comes next, and none of those is left out.
pub proof fn what_is_fetched_is_kept(v: FetchView, found: Json, other: KeyView, i: int)
    requires
        v.well_formed(),
        v.claim is None,
        v.at < v.needs.len(),
        !(v.needs[v.at] is Pvc) || bound_volume(found@) is None,
        other != v.key().unwrap(),
    ensures
        ({
            let got = after_get(v, Some(found));
            let missed = after_get(v, None);
            &&& got.fetched.dom().contains(v.key().unwrap())
            &&& got.fetched[v.key().unwrap()] == found
            &&& got.fetched.dom().contains(other) == v.fetched.dom().contains(other)
            &&& v.fetched.dom().contains(other) ==> got.fetched[other] == v.fetched[other]
            &&& missed.fetched == v.fetched
            &&& got.at > v.at
            &&& missed.at == got.at
            &&& v.at < i < got.at ==> need_key(v.namespace, v.needs[i]) is None
            &&& got.at < v.needs.len() ==> wanted(got) == need_key(
                v.namespace,
                v.needs[got.at],
            ) && wanted(got) is Some
            &&& got.at == v.needs.len() ==> wanted(got) is None
        }),
{
    to_need_goes_to(
        FetchView {
            fetched: v.fetched.insert(v.key().unwrap(), found),
            claim: None,
            at: v.at + 1,
            ..v
        },
    );
    to_need_goes_to(FetchView { at: v.at + 1, ..v });
    assert(missed_at(v) == found_at(v, found)) by {
        same_need(
            FetchView { at: v.at + 1, ..v },
            FetchView {
                fetched: v.fetched.insert(v.key().unwrap(), found),
                claim: None,
                at: v.at + 1,
                ..v
            },
        );
    }
}

spec fn missed_at(v: FetchView) -> int {
    to_need(FetchView { at: v.at + 1, ..v }).at
}

spec fn found_at(v: FetchView, found: Json) -> int {
    to_need(
        FetchView {
            fetched: v.fetched.insert(v.key().unwrap(), found),
            claim: None,
            at: v.at + 1,
            ..v
        },
    ).at
}

proof fn same_need(a: FetchView, b: FetchView)
    requires
        a.at == b.at,
        a.needs == b.needs,
        a.namespace == b.namespace,
    ensures
        to_need(a).at == to_need(b).at,
    decreases a.needs.len() - a.at,
{
    if 0 <= a.at < a.needs.len() && a.key() is None {
        same_need(FetchView { at: a.at + 1, ..a }, FetchView { at: b.at + 1, ..b });
    }
}

/// A fetch begins at the first volume that is made of something.
pub proof fn a_fetch_begins_at_the_first_need(namespace: Seq<char>, needs: Seq<NeedView>, i: int)
    ensures
        ({
            let v = to_need(
                FetchView { namespace, needs, at: 0, claim: None, fetched: Map::empty() },
            );
            &&& 0 <= i < v.at ==> need_key(namespace, needs[i]) is None
            &&& v.at < needs.len() ==> wanted(v) == need_key(namespace, needs[v.at]) && wanted(
                v,
            ) is Some
            &&& v.at >= needs.len() ==> wanted(v) is None
            &&& 0 <= v.at <= needs.len()
        }),
{
    to_need_goes_to(FetchView { namespace, needs, at: 0, claim: None, fetched: Map::empty() });
}

} // verus!
