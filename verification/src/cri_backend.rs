//! A runtime behind the container runtime interface: which calls start a container, which sandbox
//! it runs in, and which sandboxes nothing runs in any more.

use vstd::prelude::*;
use crate::backend::{
    self,
    with_service_env,
    ContainerSpec,
    ContainerStatus,
    PodIdentity,
    PullPolicy,
};
use crate::cri::{self, default_endpoints, Endpoint, RunState};
use crate::error::{self, KubeletError};
use crate::quantity::{self, ResourceBound, Resources};
use crate::table::Table;
use crate::text::{self, cat2, cat3, cat4, cat7, clone_strings, debug_of, less, same};

verus! {

/// Where the logs of containers are kept.
pub const POD_LOG_ROOT: &'static str = "/var/log/pods";

/// The span over which a container's share of a processor is counted, in microseconds.
pub const CFS_PERIOD_US: i64 = 100_000;

/// How long a container is given to end, in seconds.
pub const STOP_TIMEOUT_SECS: i64 = 30;

// ---- what is missing -----------------------------------------------------------------------

/// Something of a pod that this runtime does not carry out.
#[derive(Clone, Copy, Debug, PartialEq, Eq, Structural)]
pub enum CriGap {
    /// The volumes of its containers.
    Mounts,
    /// The address it is reached at.
    PodIp,
    /// What its containers may do.
    SecurityContext,
}

/// What a gap means, in words.
pub open spec fn gap_text(g: CriGap) -> Seq<char> {
    match g {
        CriGap::Mounts => "drops every volume mount"@,
        CriGap::PodIp => "reports no pod IP"@,
        CriGap::SecurityContext => "applies no securityContext"@,
    }
}

impl CriGap {
    /// What the gap means, in words.
    pub fn to_text(self) -> (r: &'static str)
        ensures
            r@ == gap_text(self),
    {
        match self {
            CriGap::Mounts => "drops every volume mount",
            CriGap::PodIp => "reports no pod IP",
            CriGap::SecurityContext => "applies no securityContext",
        }
    }
}

/// What this runtime does not carry out.
#[derive(Clone, Copy, Debug, PartialEq, Eq, Structural)]
pub struct CriGaps {
    mounts: bool,
    pod_ip: bool,
    security_context: bool,
}

/// Everything that this runtime does not carry out yet.
pub open spec fn all_gaps() -> Seq<CriGap> {
    seq![CriGap::Mounts, CriGap::PodIp, CriGap::SecurityContext]
}

/// Gaps in words.
pub open spec fn gaps_text(gaps: Seq<CriGap>) -> Seq<char>
    decreases gaps.len(),
{
    if gaps.len() == 0 {
        Seq::empty()
    } else if gaps.len() == 1 {
        gap_text(gaps[0])
    } else {
        gaps_text(gaps.drop_last()) + ", "@ + gap_text(gaps.last())
    }
}

/// Everything that this runtime does not carry out yet.
pub fn unsupported() -> (r: Vec<CriGap>)
    ensures
        r@ == all_gaps(),
{
    vec![CriGap::Mounts, CriGap::PodIp, CriGap::SecurityContext]
}

impl CriGaps {
    /// The gaps.
    pub closed spec fn list(self) -> Seq<CriGap> {
        let a = if self.mounts {
            seq![CriGap::Mounts]
        } else {
            Seq::empty()
        };
        let b = if self.pod_ip {
            a.push(CriGap::PodIp)
        } else {
            a
        };
        if self.security_context {
            b.push(CriGap::SecurityContext)
        } else {
            b
        }
    }

    /// What is missing today, where anything is.
    pub fn outstanding() -> (r: Option<CriGaps>)
        ensures
            all_gaps().len() > 0,
            r matches Some(g) && g.list() == all_gaps(),
    {
        let gaps = unsupported();
        let mut out = CriGaps { mounts: false, pod_ip: false, security_context: false };
        let mut i: usize = 0;
        while i < gaps.len()
            invariant
                i <= gaps@.len(),
                gaps@ == all_gaps(),
                out.mounts == (i > 0),
                out.pod_ip == (i > 1),
                out.security_context == (i > 2),
            decreases gaps@.len() - i,
        {
            match gaps[i] {
                CriGap::Mounts => {
                    out.mounts = true;
                },
                CriGap::PodIp => {
                    out.pod_ip = true;
                },
                CriGap::SecurityContext => {
                    out.security_context = true;
                },
            }
            i += 1;
        }
        assert(out.list() =~= all_gaps());
        if gaps.len() == 0 {
            None
        } else {
            Some(out)
        }
    }

    /// Whether this is missing.
    pub fn contains(self, gap: CriGap) -> (r: bool)
        ensures
            r == self.list().contains(gap),
    {
        let r = match gap {
            CriGap::Mounts => self.mounts,
            CriGap::PodIp => self.pod_ip,
            CriGap::SecurityContext => self.security_context,
        };
        proof {
            let l = self.list();
            if r {
                let m: int = if self.mounts {
                    1
                } else {
                    0
                };
                let p: int = if self.pod_ip {
                    1
                } else {
                    0
                };
                match gap {
                    CriGap::Mounts => assert(l[0] == gap),
                    CriGap::PodIp => assert(l[m] == gap),
                    CriGap::SecurityContext => assert(l[m + p] == gap),
                }
            }
        }
        r
    }

    /// What is missing, in order.
    pub fn as_slice(self) -> (r: Vec<CriGap>)
        ensures
            r@ == self.list(),
    {
        let mut out: Vec<CriGap> = Vec::new();
        if self.mounts {
            out.push(CriGap::Mounts);
        }
        if self.pod_ip {
            out.push(CriGap::PodIp);
        }
        if self.security_context {
            out.push(CriGap::SecurityContext);
        }
        assert(out@ =~= self.list());
        out
    }

    /// What is missing, in words.
    pub fn to_text(self) -> (r: String)
        ensures
            r@ == gaps_text(self.list()),
    {
        let gaps = self.as_slice();
        let mut out = String::new();
        let mut i: usize = 0;
        assert(gaps@.take(0) =~= Seq::<CriGap>::empty());
        while i < gaps.len()
            invariant
                i <= gaps@.len(),
                out@ =~= gaps_text(gaps@.take(i as int)),
            decreases gaps@.len() - i,
        {
            assert(gaps@.take(i + 1).drop_last() =~= gaps@.take(i as int));
            if i == 0 {
                out = gaps[i].to_text().to_owned();
            } else {
                out = cat3(out.as_str(), ", ", gaps[i].to_text());
            }
            i += 1;
        }
        assert(gaps@.take(i as int) =~= gaps@);
        out
    }
}

// ---- pods and their sandboxes --------------------------------------------------------------

/// The pod that a sandbox is for. The uid tells a pod from one that replaced it under its name.
#[derive(Clone, Debug, PartialEq, Eq)]
pub struct PodKey {
    pub namespace: String,
    pub name: String,
    pub uid: String,
}

/// What a `PodKey` stands for.
#[verifier::ext_equal]
pub struct KeyView {
    pub namespace: Seq<char>,
    pub name: Seq<char>,
    pub uid: Seq<char>,
}

impl View for PodKey {
    type V = KeyView;

    open spec fn view(&self) -> KeyView {
        KeyView { namespace: self.namespace@, name: self.name@, uid: self.uid@ }
    }
}

/// The order of pods: by namespace, then by name, then by uid.
pub open spec fn key_less(a: KeyView, b: KeyView) -> bool {
    ||| text::lex_less(a.namespace, b.namespace)
    ||| a.namespace == b.namespace && text::lex_less(a.name, b.name)
    ||| a.namespace == b.namespace && a.name == b.name && text::lex_less(a.uid, b.uid)
}

impl PodKey {
    /// The pod that a container belongs to.
    pub fn of(id: &PodIdentity) -> (r: PodKey)
        ensures
            r.namespace == id.namespace,
            r.name == id.name,
            r.uid == id.uid,
    {
        PodKey { namespace: id.namespace.clone(), name: id.name.clone(), uid: id.uid.clone() }
    }

    /// Where the logs of the pod's containers are kept.
    pub fn log_directory(&self) -> (r: String)
        ensures
            r@ == log_directory(self@),
    {
        cat7(
            POD_LOG_ROOT,
            "/",
            self.namespace.as_str(),
            "_",
            self.name.as_str(),
            "_",
            self.uid.as_str(),
        )
    }

    fn same(&self, other: &PodKey) -> (r: bool)
        ensures
            r == (self@ == other@),
    {
        same(self.namespace.as_str(), other.namespace.as_str()) && same(
            self.name.as_str(),
            other.name.as_str(),
        ) && same(self.uid.as_str(), other.uid.as_str())
    }

    fn less(&self, other: &PodKey) -> (r: bool)
        ensures
            r == key_less(self@, other@),
    {
        less(self.namespace.as_str(), other.namespace.as_str()) || (same(
            self.namespace.as_str(),
            other.namespace.as_str(),
        ) && (less(self.name.as_str(), other.name.as_str()) || (same(
            self.name.as_str(),
            other.name.as_str(),
        ) && less(self.uid.as_str(), other.uid.as_str()))))
    }

    /// A copy.
    pub fn copy(&self) -> (r: PodKey)
        ensures
            r == *self,
    {
        PodKey {
            namespace: self.namespace.clone(),
            name: self.name.clone(),
            uid: self.uid.clone(),
        }
    }
}

/// Where the logs of a pod's containers are kept.
pub open spec fn log_directory(k: KeyView) -> Seq<char> {
    POD_LOG_ROOT@ + "/"@ + k.namespace + "_"@ + k.name + "_"@ + k.uid
}

/// The sandbox of a pod.
pub open spec fn found(s: Seq<(KeyView, Seq<char>)>, k: KeyView) -> Option<Seq<char>>
    decreases s.len(),
{
    if s.len() == 0 {
        None
    } else if s[0].0 == k {
        Some(s[0].1)
    } else {
        found(s.skip(1), k)
    }
}

/// The sandboxes where this pod has this one.
pub open spec fn put(s: Seq<(KeyView, Seq<char>)>, k: KeyView, id: Seq<char>) -> Seq<
    (KeyView, Seq<char>),
>
    decreases s.len(),
{
    if s.len() == 0 {
        seq![(k, id)]
    } else if s[0].0 == k {
        seq![(k, id)] + s.skip(1)
    } else if key_less(k, s[0].0) {
        seq![(k, id)] + s
    } else {
        seq![s[0]] + put(s.skip(1), k, id)
    }
}

/// The sandboxes where this pod has none.
pub open spec fn dropped(s: Seq<(KeyView, Seq<char>)>, k: KeyView) -> Seq<(KeyView, Seq<char>)>
    decreases s.len(),
{
    if s.len() == 0 {
        s
    } else if s[0].0 == k {
        dropped(s.skip(1), k)
    } else {
        seq![s[0]] + dropped(s.skip(1), k)
    }
}

/// The sandboxes of the pods that are not among these.
pub open spec fn idle(s: Seq<(KeyView, Seq<char>)>, live: Set<KeyView>) -> Seq<
    (KeyView, Seq<char>),
>
    decreases s.len(),
{
    if s.len() == 0 {
        s
    } else {
        let rest = idle(s.drop_last(), live);
        if live.contains(s.last().0) {
            rest
        } else {
            rest.push(s.last())
        }
    }
}

/// What a list of sandboxes stands for.
pub open spec fn sandbox_views(s: Seq<(PodKey, String)>) -> Seq<(KeyView, Seq<char>)> {
    s.map_values(|e: (PodKey, String)| (e.0@, e.1@))
}

/// The pods of a list of sandboxes stand in their order, and none of them twice.
pub open spec fn ordered(s: Seq<(KeyView, Seq<char>)>) -> bool {
    forall|i: int, j: int| 0 <= i < j < s.len() ==> #[trigger] key_less(s[i].0, s[j].0)
}

proof fn key_less_transitive(a: KeyView, b: KeyView, c: KeyView)
    requires
        key_less(a, b),
        key_less(b, c),
    ensures
        key_less(a, c),
{
    if text::lex_less(a.namespace, b.namespace) && text::lex_less(b.namespace, c.namespace) {
        text::lex_less_transitive(a.namespace, b.namespace, c.namespace);
    } else if a.namespace == b.namespace && b.namespace == c.namespace {
        if text::lex_less(a.name, b.name) && text::lex_less(b.name, c.name) {
            text::lex_less_transitive(a.name, b.name, c.name);
        } else if a.name == b.name && b.name == c.name {
            text::lex_less_transitive(a.uid, b.uid, c.uid);
        }
    }
}

proof fn key_less_total(a: KeyView, b: KeyView)
    ensures
        key_less(a, b) || key_less(b, a) || a == b,
{
    text::lex_less_total(a.namespace, b.namespace);
    text::lex_less_total(a.name, b.name);
    text::lex_less_total(a.uid, b.uid);
    assert(a.namespace == b.namespace && a.name == b.name && a.uid == b.uid ==> a =~= b);
}

proof fn key_less_irreflexive(a: KeyView)
    ensures
        !key_less(a, a),
{
    text::lex_less_irreflexive(a.namespace);
    text::lex_less_irreflexive(a.name);
    text::lex_less_irreflexive(a.uid);
}

proof fn put_keeps_order(s: Seq<(KeyView, Seq<char>)>, k: KeyView, id: Seq<char>)
    requires
        ordered(s),
    ensures
        ordered(put(s, k, id)),
        forall|low: KeyView|
            key_less(low, k) && (forall|i: int| 0 <= i < s.len() ==> key_less(low, s[i].0))
                ==> forall|i: int|
                0 <= i < put(s, k, id).len() ==> #[trigger] key_less(low, put(s, k, id)[i].0),
    decreases s.len(),
{
    let n = put(s, k, id);
    if s.len() > 0 {
        let t = s.skip(1);
        assert forall|i: int, j: int| 0 <= i < j < t.len() implies #[trigger] key_less(
            t[i].0,
            t[j].0,
        ) by {
            assert(key_less(s[i + 1].0, s[j + 1].0));
        }
        assert forall|i: int| 0 <= i < t.len() implies key_less(s[0].0, (#[trigger] t[i]).0) by {
            assert(key_less(s[0].0, s[i + 1].0));
        }
        if s[0].0 == k {
            assert forall|i: int| 0 <= i < n.len() implies (#[trigger] n[i]).0 == s[i].0 by {
                if i > 0 {
                    assert(n[i] == t[i - 1]);
                }
            }
        } else if key_less(k, s[0].0) {
            assert forall|i: int| 0 <= i < s.len() implies #[trigger] key_less(k, s[i].0) by {
                if i > 0 {
                    key_less_transitive(k, s[0].0, s[i].0);
                }
            }
            assert forall|i: int| 0 < i < n.len() implies #[trigger] n[i] == s[i - 1] by {}
            assert forall|i: int, j: int| 0 <= i < j < n.len() implies #[trigger] key_less(
                n[i].0,
                n[j].0,
            ) by {
                assert(key_less(k, s[j - 1].0));
                if i > 0 {
                    assert(key_less(s[i - 1].0, s[j - 1].0));
                }
            }
        } else {
            key_less_total(k, s[0].0);
            put_keeps_order(t, k, id);
            let m = put(t, k, id);
            assert forall|i: int| 0 < i < n.len() implies #[trigger] n[i] == m[i - 1] by {}
            assert forall|i: int, j: int| 0 <= i < j < n.len() implies #[trigger] key_less(
                n[i].0,
                n[j].0,
            ) by {
                assert(key_less(s[0].0, m[j - 1].0));
                if i > 0 {
                    assert(key_less(m[i - 1].0, m[j - 1].0));
                }
            }
            assert forall|low: KeyView|
                key_less(low, k) && (forall|i: int|
                    0 <= i < s.len() ==> key_less(low, s[i].0)) implies forall|i: int|
                0 <= i < n.len() ==> #[trigger] key_less(low, n[i].0) by {
                assert forall|i: int| 0 <= i < t.len() implies key_less(low, t[i].0) by {
                    assert(key_less(low, s[i + 1].0));
                }
                assert forall|i: int| 0 <= i < n.len() implies #[trigger] key_less(
                    low,
                    n[i].0,
                ) by {
                    if i > 0 {
                        assert(key_less(low, m[i - 1].0));
                    }
                }
            }
        }
    }
}

proof fn dropped_keeps_order(s: Seq<(KeyView, Seq<char>)>, k: KeyView)
    requires
        ordered(s),
    ensures
        ordered(dropped(s, k)),
        forall|i: int| 0 <= i < dropped(s, k).len() ==> s.contains(#[trigger] dropped(s, k)[i]),
    decreases s.len(),
{
    let n = dropped(s, k);
    if s.len() > 0 {
        let t = s.skip(1);
        assert forall|i: int, j: int| 0 <= i < j < t.len() implies #[trigger] key_less(
            t[i].0,
            t[j].0,
        ) by {
            assert(key_less(s[i + 1].0, s[j + 1].0));
        }
        dropped_keeps_order(t, k);
        let m = dropped(t, k);
        assert forall|i: int| 0 <= i < m.len() implies s.contains(#[trigger] m[i]) && key_less(
            s[0].0,
            m[i].0,
        ) by {
            assert(t.contains(m[i]));
            let j = choose|j: int| 0 <= j < t.len() && t[j] == m[i];
            assert(s[j + 1] == m[i]);
            assert(key_less(s[0].0, s[j + 1].0));
        }
        if s[0].0 != k {
            assert(s.contains(s[0]));
            assert forall|i: int| 0 < i < n.len() implies #[trigger] n[i] == m[i - 1] by {}
            assert forall|i: int, j: int| 0 <= i < j < n.len() implies #[trigger] key_less(
                n[i].0,
                n[j].0,
            ) by {
                assert(s.contains(m[j - 1]) && key_less(s[0].0, m[j - 1].0));
                if i > 0 {
                    assert(key_less(m[i - 1].0, m[j - 1].0));
                }
            }
        }
    }
}

proof fn idle_keeps_order(s: Seq<(KeyView, Seq<char>)>, live: Set<KeyView>)
    requires
        ordered(s),
    ensures
        ordered(idle(s, live)),
        forall|i: int| 0 <= i < idle(s, live).len() ==> s.contains(#[trigger] idle(s, live)[i]),
    decreases s.len(),
{
    if s.len() > 0 {
        let t = s.drop_last();
        assert forall|i: int, j: int| 0 <= i < j < t.len() implies #[trigger] key_less(
            t[i].0,
            t[j].0,
        ) by {
            assert(key_less(s[i].0, s[j].0));
        }
        idle_keeps_order(t, live);
        let m = idle(t, live);
        assert forall|i: int| 0 <= i < m.len() implies s.contains(#[trigger] m[i]) && key_less(
            m[i].0,
            s.last().0,
        ) by {
            assert(t.contains(m[i]));
            let j = choose|j: int| 0 <= j < t.len() && t[j] == m[i];
            assert(s[j] == m[i]);
            assert(key_less(s[j].0, s[s.len() - 1].0));
        }
        let n = idle(s, live);
        assert(s.contains(s[s.len() - 1]));
        assert forall|i: int| 0 <= i < m.len() implies n[i] == #[trigger] m[i] by {}
        assert forall|i: int, j: int| 0 <= i < j < n.len() implies #[trigger] key_less(
            n[i].0,
            n[j].0,
        ) by {
            assert(n[i] == m[i]);
            if j < m.len() {
                assert(key_less(m[i].0, m[j].0));
            }
        }
    }
}

/// The sandboxes of the pods, in the order of the pods, one for each.
#[derive(Debug)]
pub struct Sandboxes {
    entries: Vec<(PodKey, String)>,
}

impl View for Sandboxes {
    type V = Seq<(KeyView, Seq<char>)>;

    closed spec fn view(&self) -> Seq<(KeyView, Seq<char>)> {
        sandbox_views(self.entries@)
    }
}

impl Sandboxes {
    #[verifier::type_invariant]
    closed spec fn in_order(self) -> bool {
        ordered(sandbox_views(self.entries@))
    }

    /// None yet.
    fn new() -> (r: Sandboxes)
        ensures
            r@ == Seq::<(KeyView, Seq<char>)>::empty(),
    {
        let entries: Vec<(PodKey, String)> = Vec::new();
        assert(sandbox_views(entries@) =~= Seq::<(KeyView, Seq<char>)>::empty());
        Sandboxes { entries }
    }

    /// The id of the sandbox of a pod, where it has one.
    fn of(&self, key: &PodKey) -> (r: Option<String>)
        ensures
            crate::lifecycle::opt_string(r) == found(self@, key@),
    {
        let ghost all = self@;
        let mut i: usize = 0;
        assert(all.skip(0) =~= all);
        while i < self.entries.len()
            invariant
                i <= self.entries@.len(),
                all == sandbox_views(self.entries@),
                found(all, key@) == found(all.skip(i as int), key@),
            decreases self.entries@.len() - i,
        {
            assert(all.skip(i as int)[0] == (self.entries@[i as int].0@, self.entries@[i
                as int].1@));
            assert(all.skip(i as int).skip(1) =~= all.skip(i + 1));
            if self.entries[i].0.same(key) {
                return Some(self.entries[i].1.clone());
            }
            i += 1;
        }
        None
    }

    /// Keeps the sandbox that was run for a pod.
    fn put(&mut self, key: PodKey, id: String)
        ensures
            final(self)@ == put(old(self)@, key@, id@),
    {
        proof {
            use_type_invariant(&*self);
            put_keeps_order(self@, key@, id@);
        }
        let ghost before = self.entries@;
        let mut entries: Vec<(PodKey, String)> = Vec::new();
        assert(sandbox_views(entries@) =~= Seq::<(KeyView, Seq<char>)>::empty());
        std::mem::swap(&mut entries, &mut self.entries);
        let ghost all = sandbox_views(before);
        let mut i: usize = 0;
        assert(all.skip(0) =~= all);
        assert(Seq::<(KeyView, Seq<char>)>::empty() + put(all, key@, id@) =~= put(
            all,
            key@,
            id@,
        ));
        while i < entries.len() && !entries[i].0.same(&key) && !key.less(
            &entries[i].0,
        )
            invariant
                i <= before.len(),
                entries@ == before,
                all == sandbox_views(before),
                put(all, key@, id@) == all.take(i as int) + put(all.skip(i as int), key@, id@),
            decreases before.len() - i,
        {
            assert(all.skip(i as int)[0] == (before[i as int].0@, before[i as int].1@));
            assert(all.skip(i as int).skip(1) =~= all.skip(i + 1));
            assert(all.take(i + 1) =~= all.take(i as int) + seq![all.skip(i as int)[0]]);
            assert(put(all, key@, id@) =~= all.take(i + 1) + put(all.skip(i + 1), key@, id@));
            i += 1;
        }
        let ghost rest = all.skip(i as int);
        if i < entries.len() {
            assert(rest[0] == (before[i as int].0@, before[i as int].1@));
            if entries[i].0.same(&key) {
                entries.set(i, (key, id));
                assert(sandbox_views(entries@) =~= all.take(i as int) + (seq![(key@, id@)]
                    + rest.skip(1)));
            } else {
                entries.insert(i, (key, id));
                assert(sandbox_views(entries@) =~= all.take(i as int) + (seq![(key@, id@)]
                    + rest));
            }
        } else {
            entries.push((key, id));
            assert(sandbox_views(entries@) =~= all.take(i as int) + seq![(key@, id@)]);
        }
        self.entries = entries;
    }

    /// Forgets the sandbox of a pod.
    fn drop_of(&mut self, key: &PodKey)
        ensures
            final(self)@ == dropped(old(self)@, key@),
    {
        proof {
            use_type_invariant(&*self);
            dropped_keeps_order(self@, key@);
        }
        let ghost before = self.entries@;
        let ghost all = sandbox_views(before);
        let mut kept: Vec<(PodKey, String)> = Vec::new();
        let mut i: usize = 0;
        assert(all.skip(0) =~= all);
        assert(sandbox_views(kept@) + dropped(all, key@) =~= dropped(all, key@));
        while i < self.entries.len()
            invariant
                i <= before.len(),
                *self == *old(self),
                self.entries@ == before,
                all == sandbox_views(before),
                sandbox_views(kept@) + dropped(all.skip(i as int), key@) == dropped(all, key@),
            decreases before.len() - i,
        {
            assert(all.skip(i as int)[0] == (before[i as int].0@, before[i as int].1@));
            assert(all.skip(i as int).skip(1) =~= all.skip(i + 1));
            if !self.entries[i].0.same(key) {
                let ghost was = kept@;
                kept.push((self.entries[i].0.copy(), self.entries[i].1.clone()));
                assert(sandbox_views(kept@) =~= sandbox_views(was) + seq![
                    all.skip(i as int)[0],
                ]);
                assert(sandbox_views(kept@) + dropped(all.skip(i + 1), key@) =~= sandbox_views(was)
                    + dropped(all.skip(i as int), key@));
            }
            i += 1;
        }
        assert(sandbox_views(kept@) + dropped(all.skip(i as int), key@) =~= sandbox_views(kept@));
        self.entries = kept;
    }
}

// ---- what is asked of the runtime ----------------------------------------------------------

/// A sandbox to run.
#[derive(Clone, Debug, PartialEq, Eq)]
pub struct SandboxConfig {
    pub name: String,
    pub uid: String,
    pub namespace: String,
    pub attempt: u32,
    pub hostname: String,
    pub log_directory: String,
}

/// Whether this is the sandbox of this pod.
pub open spec fn sandbox_config_is(c: SandboxConfig, k: KeyView) -> bool {
    &&& c.name@ == k.name
    &&& c.uid@ == k.uid
    &&& c.namespace@ == k.namespace
    &&& c.attempt == 0
    &&& c.hostname@ == k.name
    &&& c.log_directory@ == log_directory(k)
}

/// What a container may use.
#[derive(Clone, Copy, Debug, PartialEq, Eq, Structural)]
pub struct LinuxResources {
    pub cpu_period: i64,
    pub cpu_quota: i64,
    pub cpu_shares: i64,
    pub memory_limit_in_bytes: i64,
}

/// What a container with these resources may use, where it states any. A number that a 64-bit
/// field cannot hold is cut to its low bits.
pub open spec fn limits_of(r: Resources) -> Option<LinuxResources> {
    let cpu = quantity::set_to(r.cpu_limit_milli);
    let request = quantity::set_to(r.cpu_request_milli);
    let memory = quantity::set_to(r.memory_limit_bytes);
    if cpu is None && request is None && memory is None {
        None
    } else {
        Some(
            LinuxResources {
                cpu_period: if cpu is Some {
                    CFS_PERIOD_US
                } else {
                    0
                },
                cpu_quota: match cpu {
                    Some(milli) => (milli * 100) as i64,
                    None => 0,
                },
                cpu_shares: match request {
                    Some(milli) => (2 + ((quantity::weight_of(milli as int) - 1) * 262_142) / 9999)
                        as i64,
                    None => 0,
                },
                memory_limit_in_bytes: match memory {
                    Some(n) => n,
                    None => 0,
                },
            },
        )
    }
}

/// What a container with these resources may use, where it states any.
pub fn linux_resources(r: &Resources) -> (out: Option<LinuxResources>)
    ensures
        out == limits_of(*r),
{
    if r.is_unset() {
        return None;
    }
    let quota: Option<i64> = match r.cpu_limit_milli.value() {
        Some(milli) => {
            // A thousandth of a processor for the whole span is a thousandth of the span.
            let wide: i128 = milli as i128 * 100;
            Some(#[verifier::truncate] (wide as i64))
        },
        None => None,
    };
    let shares: i64 = match r.cpu_weight() {
        Some(w) => {
            let wide: i128 = 2 + ((w as i128 - 1) * 262_142) / 9999;
            wide as i64
        },
        None => 0,
    };
    Some(
        LinuxResources {
            cpu_period: if quota.is_some() {
                CFS_PERIOD_US
            } else {
                0
            },
            cpu_quota: match quota {
                Some(q) => q,
                None => 0,
            },
            cpu_shares: shares,
            memory_limit_in_bytes: match r.memory_limit_bytes.value() {
                Some(n) => n,
                None => 0,
            },
        },
    )
}

/// A container to create.
#[derive(Debug)]
pub struct ContainerConfig {
    pub name: String,
    pub attempt: u32,
    /// The image as the runtime knows it.
    pub image: String,
    /// The image as the manifest names it.
    pub user_specified_image: String,
    pub command: Vec<String>,
    /// The variables, in the order of their names.
    pub envs: Vec<(String, String)>,
    /// The log, below the directory of the sandbox.
    pub log_path: String,
    pub resources: Option<LinuxResources>,
}

/// Whether the list holds the variables, in the order of their names.
pub open spec fn lists_variables(
    v: Seq<(String, String)>,
    vars: Map<Seq<char>, Seq<char>>,
) -> bool {
    let names = text::sorted(vars.dom());
    &&& v.len() == names.len()
    &&& forall|i: int|
        #![trigger v[i]]
        0 <= i < v.len() ==> v[i].0@ == names[i] && v[i].1@ == vars[names[i]]
}

/// Whether this is the container to create for this spec, from this image.
pub open spec fn container_config_is(
    c: ContainerConfig,
    spec: ContainerSpec,
    image: Seq<char>,
    service: Option<(String, u16)>,
) -> bool {
    &&& c.name@ == spec.pod.container_name@
    &&& c.attempt == 0
    &&& c.image@ == image
    &&& c.user_specified_image@ == spec.image@
    &&& c.command@ == spec.command@
    &&& lists_variables(
        c.envs@,
        backend::served(crate::env_ref::variables(spec.env), service),
    )
    &&& c.log_path@ == spec.pod.container_name@ + "/0.log"@
    &&& c.resources == limits_of(spec.resources)
}

/// A container as the runtime describes it.
#[derive(Clone, Debug, PartialEq, Eq)]
pub struct CriStatus {
    pub id: String,
    pub state: i32,
    pub exit_code: i32,
}

/// Whether the status says what the runtime described.
pub open spec fn described(s: ContainerStatus, d: CriStatus) -> bool {
    &&& s.container_id == d.id
    &&& s.running == (d.state == 1)
    &&& s.exit_code == if d.state == 2 {
        Some(d.exit_code)
    } else {
        None
    }
    &&& s.pod_ip is None
}

/// A call to the runtime.
#[derive(Clone, Copy, Debug, PartialEq, Eq, Structural)]
pub enum Rpc {
    RunPodSandbox,
    StopPodSandbox,
    RemovePodSandbox,
    ImageStatus,
    CreateContainer,
    StartContainer,
    ContainerStatus,
    StopContainer,
    RemoveContainer,
    ExecSync,
}

/// The name of a call.
pub open spec fn rpc_name(c: Rpc) -> Seq<char> {
    match c {
        Rpc::RunPodSandbox => "RunPodSandbox"@,
        Rpc::StopPodSandbox => "StopPodSandbox"@,
        Rpc::RemovePodSandbox => "RemovePodSandbox"@,
        Rpc::ImageStatus => "ImageStatus"@,
        Rpc::CreateContainer => "CreateContainer"@,
        Rpc::StartContainer => "StartContainer"@,
        Rpc::ContainerStatus => "ContainerStatus"@,
        Rpc::StopContainer => "StopContainer"@,
        Rpc::RemoveContainer => "RemoveContainer"@,
        Rpc::ExecSync => "ExecSync"@,
    }
}

impl Rpc {
    /// The name of the call.
    pub fn name(self) -> (r: &'static str)
        ensures
            r@ == rpc_name(self),
    {
        match self {
            Rpc::RunPodSandbox => "RunPodSandbox",
            Rpc::StopPodSandbox => "StopPodSandbox",
            Rpc::RemovePodSandbox => "RemovePodSandbox",
            Rpc::ImageStatus => "ImageStatus",
            Rpc::CreateContainer => "CreateContainer",
            Rpc::StartContainer => "StartContainer",
            Rpc::ContainerStatus => "ContainerStatus",
            Rpc::StopContainer => "StopContainer",
            Rpc::RemoveContainer => "RemoveContainer",
            Rpc::ExecSync => "ExecSync",
        }
    }

    /// The error that a failure of the call, in these words, is.
    pub fn failed(self, words: &str) -> (r: KubeletError)
        ensures
            error::backend_error(r, rpc_name(self) + ": "@ + words@),
    {
        KubeletError::Backend(cat3(self.name(), ": ", words))
    }
}

/// The sandbox of a container's pod, or what makes it.
#[derive(Debug)]
pub enum SandboxStep {
    /// The pod has this one.
    Known { key: PodKey, id: String },
    /// The pod has none; this one is run for it.
    Run { key: PodKey, config: SandboxConfig },
}

/// The image that a container is created from, or that it must be fetched first.
#[derive(Clone, Debug, PartialEq, Eq)]
pub enum ImageStep {
    /// It is created from this one.
    Use(String),
    /// The image is fetched.
    Pull,
}

/// How far the start of a container has come.
#[derive(Debug)]
pub enum CriStart {
    /// The sandbox is being run.
    Sandbox { key: PodKey },
    /// The runtime was asked for the image.
    Image { key: PodKey, sandbox_id: String },
    /// The image is being fetched.
    Pull { key: PodKey, sandbox_id: String },
    /// The container is being created.
    Create { key: PodKey },
    /// The container is being started.
    Launch { key: PodKey, container_id: String },
    /// The container is being read back.
    ReadBack,
    /// Nothing more is to be done.
    Over,
}

/// What is asked of the runtime next.
#[derive(Debug)]
pub enum CriCall {
    RunPodSandbox(SandboxConfig),
    ImageStatus(String),
    PullImage(String),
    CreateContainer { sandbox_id: String, config: ContainerConfig },
    StartContainer(String),
    ContainerStatus(String),
    /// Nothing: this came of it.
    Finish(Result<ContainerStatus, KubeletError>),
}

/// What the runtime answered.
#[derive(Debug)]
pub enum CriReply {
    /// The sandbox runs, under this id.
    SandboxRuns(String),
    /// The image is there, under this id, or it is not.
    ImageSeen(Option<String>),
    /// The image was fetched, and is this one.
    ImagePulled(String),
    /// The container was created, under this id.
    Created(String),
    /// The container was started.
    Started,
    /// The container is this, or there is none.
    Described(Option<CriStatus>),
    /// The call failed, in these words.
    Failed(String),
}

/// Whether the reply is one to what was asked.
pub open spec fn answers(at: CriStart, reply: CriReply) -> bool {
    match at {
        CriStart::Sandbox { .. } => reply is SandboxRuns || reply is Failed,
        CriStart::Image { .. } => reply is ImageSeen || reply is Failed,
        CriStart::Pull { .. } => reply is ImagePulled || reply is Failed,
        CriStart::Create { .. } => reply is Created || reply is Failed,
        CriStart::Launch { .. } => reply is Started || reply is Failed,
        CriStart::ReadBack => reply is Described || reply is Failed,
        CriStart::Over => false,
    }
}

/// The words of an error at this point.
pub open spec fn failure_words(at: CriStart, image: Seq<char>, words: Seq<char>) -> Seq<char> {
    match at {
        CriStart::Sandbox { .. } => "RunPodSandbox"@ + ": "@ + words,
        CriStart::Image { .. } => "ImageStatus"@ + ": "@ + words,
        CriStart::Pull { .. } => "PullImage "@ + image + ": "@ + words,
        CriStart::Create { .. } => "CreateContainer"@ + ": "@ + words,
        CriStart::Launch { .. } => "StartContainer"@ + ": "@ + words,
        _ => "ContainerStatus"@ + ": "@ + words,
    }
}

/// Whether an image is fetched.
pub open spec fn is_pulled(policy: Option<PullPolicy>, present: bool) -> bool {
    match policy {
        Some(PullPolicy::Always) => true,
        Some(PullPolicy::Never) => false,
        _ => !present,
    }
}

// ---- the runtime ---------------------------------------------------------------------------

/// A runtime behind the container runtime interface.
#[derive(Debug)]
pub struct CriBackend {
    endpoint: Endpoint,
    sandboxes: Sandboxes,
    container_pod: Table<PodKey>,
    kubernetes_service: Option<(String, u16)>,
}

/// What is known of a `CriBackend`.
#[verifier::ext_equal]
pub struct CriView {
    /// The path of the runtime's socket.
    pub endpoint: Seq<char>,
    /// The sandbox of each pod that has one, in the order of the pods.
    pub sandboxes: Seq<(KeyView, Seq<char>)>,
    /// The pod of each container.
    pub pods: Map<Seq<char>, KeyView>,
    /// Where programs in containers find the API server.
    pub service: Option<(String, u16)>,
}

impl View for CriBackend {
    type V = CriView;

    closed spec fn view(&self) -> CriView {
        CriView {
            endpoint: self.endpoint.0@,
            sandboxes: self.sandboxes@,
            pods: self.container_pod@.map_values(|k: PodKey| k@),
            service: self.kubernetes_service,
        }
    }
}

/// The addresses that are tried, in order.
pub open spec fn candidates(endpoint: Option<Seq<char>>) -> Seq<Seq<char>> {
    match endpoint {
        Some(e) => seq![e],
        None => seq![
            "unix:///run/containerd/containerd.sock"@,
            "unix:///run/crio/crio.sock"@,
            "unix:///var/run/cri-dockerd.sock"@,
        ],
    }
}

/// Whether a file at the socket that this address names was found missing, or it names none.
pub open spec fn passed_over<F: Fn(&str) -> bool>(raw: Seq<char>, exists_at: F) -> bool {
    match cri::socket_path(raw) {
        None => true,
        Some(path) => exists|p: &str| p@ == path && call_ensures(exists_at, (p,), false),
    }
}

/// What may become of the start of a container in one step.
pub open spec fn start_step(
    old: CriView,
    new: CriView,
    spec: ContainerSpec,
    at: CriStart,
    reply: CriReply,
    next: CriStart,
    call: CriCall,
) -> bool {
    match reply {
        CriReply::Failed(words) => {
            &&& new == old
            &&& next is Over
            &&& call matches CriCall::Finish(Err(e)) && error::backend_error(
                e,
                failure_words(at, spec.image@, words@),
            )
        },
        CriReply::SandboxRuns(id) => {
            &&& at matches CriStart::Sandbox { key } && {
                &&& new == CriView { sandboxes: put(old.sandboxes, key@, id@), ..old }
                &&& next == CriStart::Image { key, sandbox_id: id }
                &&& call matches CriCall::ImageStatus(image) && image == spec.image
            }
        },
        CriReply::ImageSeen(present) => {
            &&& new == old
            &&& at matches CriStart::Image { key, sandbox_id } && {
                if is_pulled(spec.pull_policy, present is Some) {
                    &&& next == CriStart::Pull { key, sandbox_id }
                    &&& call matches CriCall::PullImage(image) && image == spec.image
                } else {
                    match present {
                        Some(id) => {
                            &&& next == CriStart::Create { key }
                            &&& call matches CriCall::CreateContainer { sandbox_id: s, config }
                                && s == sandbox_id && container_config_is(
                                config,
                                spec,
                                id@,
                                old.service,
                            )
                        },
                        None => {
                            &&& next is Over
                            &&& call matches CriCall::Finish(Err(e)) && error::backend_error(
                                e,
                                "ErrImageNeverPull: "@ + spec.image@
                                    + " is absent and imagePullPolicy is Never"@,
                            )
                        },
                    }
                }
            }
        },
        CriReply::ImagePulled(id) => {
            &&& new == old
            &&& at matches CriStart::Pull { key, sandbox_id } && {
                &&& next == CriStart::Create { key }
                &&& call matches CriCall::CreateContainer { sandbox_id: s, config } && s
                    == sandbox_id && container_config_is(config, spec, id@, old.service)
            }
        },
        CriReply::Created(id) => {
            &&& new == old
            &&& at matches CriStart::Create { key } && {
                &&& next == CriStart::Launch { key, container_id: id }
                &&& call matches CriCall::StartContainer(c) && c == id
            }
        },
        CriReply::Started => {
            at matches CriStart::Launch { key, container_id } && {
                &&& new == CriView { pods: old.pods.insert(container_id@, key@), ..old }
                &&& next is ReadBack
                &&& call matches CriCall::ContainerStatus(c) && c == container_id
            }
        },
        CriReply::Described(found) => {
            &&& new == old
            &&& next is Over
            &&& match found {
                Some(d) => call matches CriCall::Finish(Ok(s)) && described(s, d),
                None => call matches CriCall::Finish(Err(e)) && error::backend_error(
                    e,
                    "container vanished between start and status"@,
                ),
            }
        },
    }
}

impl CriBackend {
    /// A runtime at this socket that was asked nothing yet.
    pub fn new(endpoint: Endpoint) -> (r: CriBackend)
        ensures
            r@ == (CriView {
                endpoint: endpoint.0@,
                sandboxes: Seq::empty(),
                pods: Map::empty(),
                service: None,
            }),
    {
        let r = CriBackend {
            endpoint,
            sandboxes: Sandboxes::new(),
            container_pod: Table::new(),
            kubernetes_service: None,
        };
        assert(r@.sandboxes =~= Seq::<(KeyView, Seq<char>)>::empty());
        assert(r@.pods =~= Map::<Seq<char>, KeyView>::empty());
        r
    }

    /// The runtime at the first address that names a socket at which there is a file. `exists_at`
    /// says whether there is one at a path.
    pub fn discover<F: Fn(&str) -> bool>(endpoint: Option<&str>, exists_at: F) -> (r: Option<
        CriBackend,
    >)
        requires
            forall|p: &str| call_requires(exists_at, (p,)),
        ensures
            match r {
                Some(b) => {
                    &&& b@.sandboxes.len() == 0
                    &&& b@.pods == Map::<Seq<char>, KeyView>::empty()
                    &&& b@.service is None
                    &&& exists|i: int|
                        #![trigger candidates(crate::lifecycle::opt_text(endpoint))[i]]
                        {
                            let all = candidates(crate::lifecycle::opt_text(endpoint));
                            &&& 0 <= i < all.len()
                            &&& cri::socket_path(all[i]) == Some(b@.endpoint)
                            &&& exists|p: &str|
                                p@ == b@.endpoint && call_ensures(exists_at, (p,), true)
                            &&& forall|j: int| 0 <= j < i ==> passed_over(all[j], exists_at)
                        }
                },
                None => forall|j: int|
                    #![trigger candidates(crate::lifecycle::opt_text(endpoint))[j]]
                    0 <= j < candidates(crate::lifecycle::opt_text(endpoint)).len()
                        ==> passed_over(
                        candidates(crate::lifecycle::opt_text(endpoint))[j],
                        exists_at,
                    ),
            },
    {
        let ghost all = candidates(crate::lifecycle::opt_text(endpoint));
        let tried: Vec<&str> = match endpoint {
            Some(e) => vec![e],
            None => default_endpoints(),
        };
        assert(crate::conditions::slices(tried@) =~= all);
        let mut i: usize = 0;
        while i < tried.len()
            invariant
                i <= tried@.len(),
                all == candidates(crate::lifecycle::opt_text(endpoint)),
                crate::conditions::slices(tried@) == all,
                forall|p: &str| call_requires(exists_at, (p,)),
                forall|j: int| 0 <= j < i ==> passed_over(all[j], exists_at),
            decreases tried@.len() - i,
        {
            assert(all[i as int] == tried@[i as int]@);
            if let Some(e) = Endpoint::parse(tried[i]) {
                let path = e.path();
                if exists_at(path) {
                    assert(path@ == e.0@ && call_ensures(exists_at, (path,), true));
                    return Some(CriBackend::new(e));
                }
                assert(path@ == e.0@ && call_ensures(exists_at, (path,), false));
            }
            i += 1;
        }
        assert(crate::conditions::slices(tried@).len() == tried@.len());
        None
    }

    /// The path of the runtime's socket.
    pub fn endpoint_path(&self) -> (r: &str)
        ensures
            r@ == self@.endpoint,
    {
        self.endpoint.path()
    }

    /// The runtime's name.
    pub fn name(&self) -> (r: &'static str)
        ensures
            r@ == "cri"@,
    {
        "cri"
    }

    /// The same, where programs in containers find the API server here.
    pub fn with_kubernetes_service(self, host: &str, port: u16) -> (r: CriBackend)
        ensures
            r@ == (CriView { service: r@.service, ..self@ }),
            r@.service matches Some((h, p)) && h@ == host@ && p == port,
    {
        let mut out = self;
        out.kubernetes_service = Some((host.to_owned(), port));
        out
    }

    /// The id of the sandbox of a pod, where it has one.
    pub fn sandbox_of(&self, key: &PodKey) -> (r: Option<String>)
        ensures
            crate::lifecycle::opt_string(r) == found(self@.sandboxes, key@),
    {
        self.sandboxes.of(key)
    }

    /// The sandbox of a container's pod, or what makes it.
    pub fn sandbox_for(&self, spec: &ContainerSpec) -> (r: Result<SandboxStep, KubeletError>)
        ensures
            sandbox_step_is(r, self@.sandboxes, *spec),
    {
        if !spec.pod.is_present() {
            return Err(
                KubeletError::Backend(
                    cat3(
                        "CRI needs a pod identity and this spec carries none (container ",
                        debug_of(spec.name.as_str()).as_str(),
                        "); a spec built outside the Pod path cannot be run on CRI",
                    ),
                ),
            );
        }
        let key = PodKey::of(&spec.pod);
        match self.sandbox_of(&key) {
            Some(id) => Ok(SandboxStep::Known { key, id }),
            None => {
                let config = SandboxConfig {
                    name: key.name.clone(),
                    uid: key.uid.clone(),
                    namespace: key.namespace.clone(),
                    attempt: 0,
                    hostname: key.name.clone(),
                    log_directory: key.log_directory(),
                };
                Ok(SandboxStep::Run { key, config })
            },
        }
    }

    /// Keeps the sandbox that was run for a pod.
    fn keep_sandbox(&mut self, key: PodKey, id: String)
        ensures
            final(self)@ == (CriView {
                sandboxes: put(old(self)@.sandboxes, key@, id@),
                ..old(self)@
            }),
            ordered(final(self)@.sandboxes),
    {
        self.sandboxes.put(key, id);
        proof {
            use_type_invariant(&self.sandboxes);
        }
    }

    /// Whether a container of this pod is known.
    fn has_container(&self, key: &PodKey) -> (r: bool)
        ensures
            r == self@.pods.values().contains(key@),
    {
        let keys = self.container_pod.keys();
        let ghost all = text::texts(keys@);
        let mut i: usize = 0;
        while i < keys.len()
            invariant
                i <= keys@.len(),
                all == text::texts(keys@),
                all.to_set() == self.container_pod@.dom(),
                forall|j: int|
                    #![trigger all[j]]
                    0 <= j < i ==> self.container_pod@[all[j]]@ != key@,
            decreases keys@.len() - i,
        {
            assert(all[i as int] == keys@[i as int]@);
            assert(all.to_set().contains(all[i as int]));
            if let Some(k) = self.container_pod.get(keys[i].as_str()) {
                if k.same(key) {
                    assert(self@.pods.dom().contains(all[i as int]));
                    assert(self@.pods[all[i as int]] == key@);
                    return true;
                }
            }
            i += 1;
        }
        proof {
            if self@.pods.values().contains(key@) {
                let id = choose|id: Seq<char>|
                    #[trigger] self@.pods.dom().contains(id) && self@.pods[id] == key@;
                assert(all.to_set().contains(id));
                let j = choose|j: int| 0 <= j < all.len() && all[j] == id;
                assert(self.container_pod@[all[j]]@ != key@);
            }
        }
        false
    }

    /// The sandboxes of the pods of which no container is known, in the order of the pods.
    pub fn idle_sandboxes(&self) -> (r: Vec<(PodKey, String)>)
        ensures
            sandbox_views(r@) == idle(self@.sandboxes, self@.pods.values()),
            ordered(self@.sandboxes),
            ordered(sandbox_views(r@)),
    {
        let ghost all = sandbox_views(self.sandboxes.entries@);
        let ghost live = self@.pods.values();
        let mut out: Vec<(PodKey, String)> = Vec::new();
        let mut i: usize = 0;
        assert(all.take(0) =~= Seq::<(KeyView, Seq<char>)>::empty());
        assert(sandbox_views(out@) =~= idle(all.take(0), live));
        while i < self.sandboxes.entries.len()
            invariant
                i <= self.sandboxes.entries@.len(),
                all == sandbox_views(self.sandboxes.entries@),
                live == self@.pods.values(),
                sandbox_views(out@) == idle(all.take(i as int), live),
            decreases self.sandboxes.entries@.len() - i,
        {
            assert(all.take(i + 1).drop_last() =~= all.take(i as int));
            assert(all.take(i + 1).last() == (self.sandboxes.entries@[i as int].0@, self.sandboxes.entries@[i
                as int].1@));
            if !self.has_container(&self.sandboxes.entries[i].0) {
                let ghost before = out@;
                out.push((self.sandboxes.entries[i].0.copy(), self.sandboxes.entries[i].1.clone()));
                assert(sandbox_views(out@) =~= sandbox_views(before).push(all[i as int]));
            }
            i += 1;
        }
        assert(all.take(i as int) =~= all);
        proof {
            use_type_invariant(&self.sandboxes);
            idle_keeps_order(all, self@.pods.values());
        }
        out
    }

    /// Forgets the sandbox of a pod, which was taken down.
    pub fn sandbox_gone(&mut self, key: &PodKey)
        ensures
            final(self)@ == (CriView {
                sandboxes: dropped(old(self)@.sandboxes, key@),
                ..old(self)@
            }),
            ordered(final(self)@.sandboxes),
    {
        self.sandboxes.drop_of(key);
        proof {
            use_type_invariant(&self.sandboxes);
        }
    }

    /// Forgets a container, which was removed.
    pub fn container_gone(&mut self, container_id: &str)
        ensures
            final(self)@ == (CriView {
                pods: old(self)@.pods.remove(container_id@),
                ..old(self)@
            }),
    {
        self.container_pod.remove(container_id);
        assert(self@.pods =~= old(self)@.pods.remove(container_id@));
    }

    /// The image that a container is created from, where the runtime has `present` of it.
    pub fn ensure_image(spec: &ContainerSpec, present: Option<String>) -> (r: Result<
        ImageStep,
        KubeletError,
    >)
        ensures
            if is_pulled(spec.pull_policy, present is Some) {
                r matches Ok(ImageStep::Pull)
            } else {
                match present {
                    Some(id) => r == Ok::<ImageStep, KubeletError>(ImageStep::Use(id)),
                    None => r matches Err(e) && error::backend_error(
                        e,
                        "ErrImageNeverPull: "@ + spec.image@
                            + " is absent and imagePullPolicy is Never"@,
                    ),
                }
            },
    {
        let policy = match spec.pull_policy {
            Some(p) => p,
            None => PullPolicy::IfNotPresent,
        };
        match (policy, present) {
            (PullPolicy::Never, None) => Err(
                KubeletError::Backend(
                    cat3(
                        "ErrImageNeverPull: ",
                        spec.image.as_str(),
                        " is absent and imagePullPolicy is Never",
                    ),
                ),
            ),
            (PullPolicy::Always, _) => Ok(ImageStep::Pull),
            (_, Some(id)) => Ok(ImageStep::Use(id)),
            (_, None) => Ok(ImageStep::Pull),
        }
    }

    /// The container to create for this spec, from this image.
    pub fn container_config(&self, spec: &ContainerSpec, image: String) -> (r: ContainerConfig)
        ensures
            container_config_is(r, *spec, image@, self@.service),
    {
        let env = with_service_env(&spec.env, &self.kubernetes_service);
        let ghost vars = crate::env_ref::variables(env);
        let names = env.keys();
        assert(env@.dom() =~= vars.dom());
        let ghost all = text::texts(names@);
        let mut envs: Vec<(String, String)> = Vec::new();
        let mut i: usize = 0;
        while i < names.len()
            invariant
                i <= names@.len(),
                all == text::texts(names@),
                all.to_set() == env@.dom(),
                vars == crate::env_ref::variables(env),
                envs@.len() == i,
                forall|k: int|
                    #![trigger envs@[k]]
                    0 <= k < i ==> envs@[k].0@ == all[k] && envs@[k].1@ == vars[all[k]],
            decreases names@.len() - i,
        {
            assert(all[i as int] == names@[i as int]@);
            assert(all.to_set().contains(all[i as int]));
            if let Some(v) = env.get(names[i].as_str()) {
                envs.push((names[i].clone(), v.clone()));
            }
            i += 1;
        }
        ContainerConfig {
            name: spec.pod.container_name.clone(),
            attempt: 0,
            image,
            user_specified_image: spec.image.clone(),
            command: clone_strings(spec.command.as_slice()),
            envs,
            log_path: cat2(spec.pod.container_name.as_str(), "/0.log"),
            resources: linux_resources(&spec.resources),
        }
    }

    /// The first call that starts a container.
    pub fn start(&self, spec: &ContainerSpec) -> (r: (CriStart, CriCall))
        ensures
            exists|s: Result<SandboxStep, KubeletError>|
                #[trigger] sandbox_step_is(s, self@.sandboxes, *spec) && match s {
                    Ok(SandboxStep::Known { key, id }) => {
                        &&& r.0 == CriStart::Image { key, sandbox_id: id }
                        &&& r.1 matches CriCall::ImageStatus(image) && image == spec.image
                    },
                    Ok(SandboxStep::Run { key, config }) => r == (
                        CriStart::Sandbox { key },
                        CriCall::RunPodSandbox(config),
                    ),
                    Err(e) => r == (
                        CriStart::Over,
                        CriCall::Finish(Err::<ContainerStatus, KubeletError>(e)),
                    ),
                },
    {
        let step = self.sandbox_for(spec);
        let ghost s = step;
        assert(sandbox_step_is(s, self@.sandboxes, *spec));
        match step {
            Ok(SandboxStep::Known { key, id }) => (
                CriStart::Image { key, sandbox_id: id },
                CriCall::ImageStatus(spec.image.clone()),
            ),
            Ok(SandboxStep::Run { key, config }) => (
                CriStart::Sandbox { key },
                CriCall::RunPodSandbox(config),
            ),
            Err(e) => (CriStart::Over, CriCall::Finish(Err(e))),
        }
    }

    /// The next call that starts a container, where the last one was answered like this.
    pub fn continue_start(&mut self, spec: &ContainerSpec, at: CriStart, reply: CriReply) -> (r: (
        CriStart,
        CriCall,
    ))
        requires
            answers(at, reply),
        ensures
            start_step(old(self)@, final(self)@, *spec, at, reply, r.0, r.1),
            ordered(old(self)@.sandboxes),
            ordered(final(self)@.sandboxes),
    {
        proof {
            use_type_invariant(&self.sandboxes);
        }
        match (at, reply) {
            (CriStart::Sandbox { key }, CriReply::SandboxRuns(id)) => {
                self.keep_sandbox(key.copy(), id.clone());
                (
                    CriStart::Image { key, sandbox_id: id },
                    CriCall::ImageStatus(spec.image.clone()),
                )
            },
            (CriStart::Image { key, sandbox_id }, CriReply::ImageSeen(present)) => {
                match CriBackend::ensure_image(spec, present) {
                    Ok(ImageStep::Use(id)) => {
                        let config = self.container_config(spec, id);
                        (CriStart::Create { key }, CriCall::CreateContainer { sandbox_id, config })
                    },
                    Ok(ImageStep::Pull) => (
                        CriStart::Pull { key, sandbox_id },
                        CriCall::PullImage(spec.image.clone()),
                    ),
                    Err(e) => (CriStart::Over, CriCall::Finish(Err(e))),
                }
            },
            (CriStart::Pull { key, sandbox_id }, CriReply::ImagePulled(id)) => {
                let config = self.container_config(spec, id);
                (CriStart::Create { key }, CriCall::CreateContainer { sandbox_id, config })
            },
            (CriStart::Create { key }, CriReply::Created(id)) => (
                CriStart::Launch { key, container_id: id.clone() },
                CriCall::StartContainer(id),
            ),
            (CriStart::Launch { key, container_id }, CriReply::Started) => {
                self.container_pod.insert(container_id.as_str(), key);
                assert(self@.pods =~= old(self)@.pods.insert(container_id@, key@));
                (CriStart::ReadBack, CriCall::ContainerStatus(container_id))
            },
            (CriStart::ReadBack, CriReply::Described(found)) => {
                match CriBackend::status(found) {
                    Some(s) => (CriStart::Over, CriCall::Finish(Ok(s))),
                    None => (
                        CriStart::Over,
                        CriCall::Finish(
                            Err(
                                KubeletError::Backend(
                                    "container vanished between start and status".to_owned(),
                                ),
                            ),
                        ),
                    ),
                }
            },
            (state, CriReply::Failed(words)) => {
                let e = match state {
                    CriStart::Sandbox { .. } => Rpc::RunPodSandbox.failed(words.as_str()),
                    CriStart::Image { .. } => Rpc::ImageStatus.failed(words.as_str()),
                    CriStart::Pull { .. } => KubeletError::Backend(
                        cat4("PullImage ", spec.image.as_str(), ": ", words.as_str()),
                    ),
                    CriStart::Create { .. } => Rpc::CreateContainer.failed(words.as_str()),
                    CriStart::Launch { .. } => Rpc::StartContainer.failed(words.as_str()),
                    _ => Rpc::ContainerStatus.failed(words.as_str()),
                };
                (CriStart::Over, CriCall::Finish(Err(e)))
            },
            (_, _) => {
                assert(false);
                (CriStart::Over, CriCall::ImageStatus(spec.image.clone()))
            },
        }
    }

    /// What is said of a container, where the runtime described it like this or knows none.
    pub fn status(found: Option<CriStatus>) -> (r: Option<ContainerStatus>)
        ensures
            match found {
                Some(d) => r matches Some(s) && described(s, d),
                None => r is None,
            },
    {
        match found {
            None => None,
            Some(d) => {
                let run = RunState::from_cri(d.state, d.exit_code);
                Some(
                    ContainerStatus {
                        running: run.is_running(),
                        exit_code: if run.is_terminal() {
                            Some(d.exit_code)
                        } else {
                            None
                        },
                        container_id: d.id,
                        pod_ip: None,
                    },
                )
            },
        }
    }

    /// Refuses to read a log: the interface has no call for it, and its files are not read here.
    pub fn logs(container_id: &str) -> (r: KubeletError)
        ensures
            error::backend_error(
                r,
                "CRI log reading is not implemented: logs for "@ + container_id@ + " live at "@
                    + POD_LOG_ROOT@
                    + "/<ns>_<pod>_<uid>/<container>/0.log and need the CRI line-format parser (pending-cri: log-parser)"@,
            ),
    {
        KubeletError::Backend(
            crate::text::cat5(
                "CRI log reading is not implemented: logs for ",
                container_id,
                " live at ",
                POD_LOG_ROOT,
                "/<ns>_<pod>_<uid>/<container>/0.log and need the CRI line-format parser (pending-cri: log-parser)",
            ),
        )
    }
}

/// Whether this is the sandbox of a container's pod, or what makes it, among these sandboxes.
pub open spec fn sandbox_step_is(
    r: Result<SandboxStep, KubeletError>,
    sandboxes: Seq<(KeyView, Seq<char>)>,
    spec: ContainerSpec,
) -> bool {
    let k = KeyView {
        namespace: spec.pod.namespace@,
        name: spec.pod.name@,
        uid: spec.pod.uid@,
    };
    if spec.pod.namespace@.len() == 0 || spec.pod.name@.len() == 0 {
        r matches Err(e) && error::backend_error(
            e,
            "CRI needs a pod identity and this spec carries none (container "@ + text::debug_text(
                spec.name@,
            ) + "); a spec built outside the Pod path cannot be run on CRI"@,
        )
    } else {
        match found(sandboxes, k) {
            Some(id) => r matches Ok(SandboxStep::Known { key, id: i }) && key@ == k && i@ == id,
            None => r matches Ok(SandboxStep::Run { key, config }) && key@ == k
                && sandbox_config_is(config, k),
        }
    }
}

// ---- laws ----------------------------------------------------------------------------------

/// A sandbox that is kept for a pod is the one that is found for it, and what is found for every
/// other pod stays: one under the same name with another uid gets its own.
pub proof fn each_pod_has_its_own_sandbox(
    s: Seq<(KeyView, Seq<char>)>,
    k: KeyView,
    id: Seq<char>,
    other: KeyView,
)
    ensures
        found(put(s, k, id), k) == Some(id),
        other != k ==> found(put(s, k, id), other) == found(s, other),
    decreases s.len(),
{
    let n = put(s, k, id);
    if s.len() == 0 {
        assert(n.skip(1) =~= s);
    } else if s[0].0 == k {
        assert(n.skip(1) =~= s.skip(1));
    } else if key_less(k, s[0].0) {
        assert(n.skip(1) =~= s);
    } else {
        assert(n.skip(1) =~= put(s.skip(1), k, id));
        each_pod_has_its_own_sandbox(s.skip(1), k, id, other);
    }
}

/// The sandboxes stay in the order of their pods, with no pod twice, whatever is kept and whatever
/// is forgotten.
pub proof fn sandboxes_stay_in_order(
    s: Seq<(KeyView, Seq<char>)>,
    k: KeyView,
    id: Seq<char>,
    live: Set<KeyView>,
    i: int,
    j: int,
)
    requires
        ordered(s),
    ensures
        0 <= i < j < s.len() ==> s[i].0 != s[j].0,
        ordered(put(s, k, id)),
        ordered(dropped(s, k)),
        ordered(idle(s, live)),
{
    if 0 <= i < j < s.len() {
        assert(key_less(s[i].0, s[j].0));
        key_less_irreflexive(s[i].0);
    }
    put_keeps_order(s, k, id);
    dropped_keeps_order(s, k);
    idle_keeps_order(s, live);
}

/// A sandbox that was taken down is forgotten, and no other.
pub proof fn a_sandbox_that_is_gone_is_forgotten(
    s: Seq<(KeyView, Seq<char>)>,
    k: KeyView,
    other: KeyView,
)
    ensures
        found(dropped(s, k), k) is None,
        other != k ==> found(dropped(s, k), other) == found(s, other),
    decreases s.len(),
{
    if s.len() > 0 {
        a_sandbox_that_is_gone_is_forgotten(s.skip(1), k, other);
        if s[0].0 != k {
            assert(dropped(s, k).skip(1) =~= dropped(s.skip(1), k));
        }
    }
}

/// A pod of which a container is known keeps its sandbox: the sandboxes to take down are those of
/// the other pods, all of them and nothing else.
pub proof fn a_live_pod_keeps_its_sandbox(
    s: Seq<(KeyView, Seq<char>)>,
    live: Set<KeyView>,
    e: (KeyView, Seq<char>),
)
    ensures
        idle(s, live).contains(e) <==> s.contains(e) && !live.contains(e.0),
    decreases s.len(),
{
    if s.len() > 0 {
        let t = s.drop_last();
        a_live_pod_keeps_its_sandbox(t, live, e);
        let rest = idle(t, live);
        assert(s =~= t.push(s.last()));
        assert(s.contains(e) <==> t.contains(e) || s.last() == e) by {
            if t.contains(e) {
                let i = choose|i: int| 0 <= i < t.len() && t[i] == e;
                assert(s[i] == e);
            }
            if s.last() == e {
                assert(s[s.len() - 1] == e);
            }
        }
        assert(rest.push(s.last()).contains(e) <==> rest.contains(e) || s.last() == e) by {
            let p = rest.push(s.last());
            if rest.contains(e) {
                let i = choose|i: int| 0 <= i < rest.len() && rest[i] == e;
                assert(p[i] == e);
            }
            if s.last() == e {
                assert(p[p.len() - 1] == e);
            }
            if p.contains(e) {
                let i = choose|i: int| 0 <= i < p.len() && p[i] == e;
                if i < rest.len() {
                    assert(rest[i] == e);
                }
            }
        }
    }
}

/// An image that is there is fetched again only where the manifest says so each time.
pub proof fn what_is_there_is_not_fetched(policy: Option<PullPolicy>)
    ensures
        is_pulled(policy, true) <==> policy == Some(PullPolicy::Always),
        !is_pulled(Some(PullPolicy::Never), false),
{
}

/// An image that is not there is fetched unless that is forbidden, and one that is there only where it
/// is to be fetched each time.
pub proof fn when_an_image_is_fetched(policy: Option<PullPolicy>)
    ensures
        is_pulled(policy, false) <==> policy != Some(PullPolicy::Never),
        is_pulled(policy, true) <==> policy == Some(PullPolicy::Always),
{
}

/// What is created is what was asked for: under the name of the container, from the image that was found
/// under the name that was given for it, with the words of its command, each of its variables, its log
/// below its name and what it may use.
pub proof fn what_is_created_is_what_was_asked(
    c: ContainerConfig,
    spec: ContainerSpec,
    image: Seq<char>,
    service: Option<(String, u16)>,
    names: Seq<Seq<char>>,
    i: int,
)
    requires
        container_config_is(c, spec, image, service),
        text::ascending(names),
        names.to_set() == backend::served(crate::env_ref::variables(spec.env), service).dom(),
        0 <= i < names.len(),
    ensures
        c.name@ == spec.pod.container_name@,
        c.image@ == image,
        c.user_specified_image@ == spec.image@,
        c.command@ == spec.command@,
        c.log_path@ == spec.pod.container_name@ + "/0.log"@,
        c.attempt == 0,
        c.resources == limits_of(spec.resources),
        c.envs@.len() == names.len(),
        c.envs@[i].0@ == names[i],
        c.envs@[i].1@ == backend::served(
            crate::env_ref::variables(spec.env),
            service,
        )[names[i]],
{
    let vars = backend::served(crate::env_ref::variables(spec.env), service);
    text::a_sorted_list_is_the_sorted_set(names, vars.dom());
    assert(c.envs@[i].0@ == names[i]);
}

/// What a container may use: a tenth of a millisecond of each tenth of a second for each thousandth of a
/// processor of its limit, and its limit of memory. What it does not state is not limited, and one that
/// states nothing has no limits at all.
pub proof fn what_a_container_may_use(r: Resources, milli: i64, bytes: i64)
    requires
        0 <= milli <= 1_000_000_000,
        0 <= bytes,
    ensures
        limits_of(r) is None <==> !(r.cpu_limit_milli is Amount) && !(r.cpu_request_milli is Amount)
            && !(r.memory_limit_bytes is Amount),
        limits_of(r) matches Some(l) ==> {
            &&& r.cpu_limit_milli == ResourceBound::Amount(milli) ==> l.cpu_period == 100_000
                && l.cpu_quota == 100 * milli
            &&& !(r.cpu_limit_milli is Amount) ==> l.cpu_period == 0 && l.cpu_quota == 0
            &&& r.memory_limit_bytes == ResourceBound::Amount(bytes) ==> l.memory_limit_in_bytes
                == bytes
            &&& !(r.memory_limit_bytes is Amount) ==> l.memory_limit_in_bytes == 0
            &&& !(r.cpu_request_milli is Amount) ==> l.cpu_shares == 0
            &&& r.cpu_request_milli == ResourceBound::Amount(milli) ==> 2 <= l.cpu_shares <= 262144
                && l.cpu_shares == 2 + ((quantity::weight_of(milli as int) - 1) * 262142) / 9999
        },
{
    quantity::weights_grow_with_requests(milli as int, milli as int);
}

/// The sandbox of a pod has its name, its namespace and its uid, its name for a host name, and its logs
/// under all three.
pub proof fn what_a_sandbox_is(c: SandboxConfig, k: KeyView)
    requires
        sandbox_config_is(c, k),
    ensures
        c.name@ == k.name,
        c.uid@ == k.uid,
        c.namespace@ == k.namespace,
        c.hostname@ == k.name,
        c.attempt == 0,
        c.log_directory@ == "/var/log/pods"@ + "/"@ + k.namespace + "_"@ + k.name + "_"@ + k.uid,
{
}

/// A container without a pod is refused. One with a pod goes into the sandbox of its pod where there is
/// one, and otherwise one is run for it.
pub proof fn which_sandbox_a_container_goes_into(
    r: Result<SandboxStep, KubeletError>,
    sandboxes: Seq<(KeyView, Seq<char>)>,
    spec: ContainerSpec,
    k: KeyView,
)
    requires
        sandbox_step_is(r, sandboxes, spec),
        k.namespace == spec.pod.namespace@,
        k.name == spec.pod.name@,
        k.uid == spec.pod.uid@,
    ensures
        r is Err <==> k.namespace.len() == 0 || k.name.len() == 0,
        r matches Ok(SandboxStep::Known { key, id }) ==> key@ == k && found(sandboxes, k) == Some(
            id@,
        ),
        r matches Ok(SandboxStep::Run { key, config }) ==> key@ == k && found(sandboxes, k) is None
            && config.name@ == k.name && config.uid@ == k.uid && config.namespace@ == k.namespace,
        r is Ok && found(sandboxes, k) is Some ==> r->Ok_0 is Known,
{
}

/// A container is up exactly where the runtime says that it runs, and has a code exactly where it says
/// that it exited. No address is told.
pub proof fn what_a_runtime_describes(s: ContainerStatus, d: CriStatus)
    requires
        described(s, d),
    ensures
        s.container_id@ == d.id@,
        s.running <==> d.state == 1,
        s.exit_code is Some <==> d.state == 2,
        d.state == 2 ==> s.exit_code == Some(d.exit_code),
        s.pod_ip is None,
{
}

/// How a start goes on: behind the sandbox, which is kept for its pod, with the image; behind the image
/// with the container, created in that sandbox from the image that was found, or fetched first where the
/// policy says so; then it is started, which makes it one of its pod, and is read back. What failed ends
/// it, and nothing is kept.
pub proof fn a_start_goes_step_by_step(
    was: CriView,
    new: CriView,
    spec: ContainerSpec,
    at: CriStart,
    reply: CriReply,
    next: CriStart,
    call: CriCall,
)
    requires
        answers(at, reply),
        start_step(was, new, spec, at, reply, next, call),
    ensures
        reply is Failed ==> next is Over && new == was && (call matches CriCall::Finish(Err(_))),
        new.endpoint == was.endpoint,
        new.service == was.service,
        !(reply is SandboxRuns) ==> new.sandboxes == was.sandboxes,
        !(reply is Started) ==> new.pods == was.pods,
        at matches CriStart::Sandbox { key } ==> (reply matches CriReply::SandboxRuns(id) ==> next
            == (CriStart::Image { key, sandbox_id: id }) && new.sandboxes == put(
            was.sandboxes,
            key@,
            id@,
        ) && (call matches CriCall::ImageStatus(image) && image@ == spec.image@)),
        at matches CriStart::Image { key, sandbox_id } ==> (reply matches CriReply::ImageSeen(
            present,
        ) ==> {
            let fetch = spec.pull_policy == Some(PullPolicy::Always) || (present is None
                && spec.pull_policy != Some(PullPolicy::Never));
            &&& fetch ==> next == (CriStart::Pull { key, sandbox_id }) && (
            call matches CriCall::PullImage(image) && image@ == spec.image@)
            &&& !fetch && present is None ==> next is Over && (call matches CriCall::Finish(Err(_)))
            &&& !fetch && present is Some ==> next == (CriStart::Create { key }) && (
            call matches CriCall::CreateContainer { sandbox_id: s, config } && s == sandbox_id
                && container_config_is(config, spec, present.unwrap()@, was.service))
        }),
        at matches CriStart::Pull { key, sandbox_id } ==> (reply matches CriReply::ImagePulled(id)
            ==> next == (CriStart::Create { key }) && (call matches CriCall::CreateContainer {
            sandbox_id: s,
            config,
        } && s == sandbox_id && container_config_is(config, spec, id@, was.service))),
        at matches CriStart::Create { key } ==> (reply matches CriReply::Created(id) ==> next
            == (CriStart::Launch { key, container_id: id }) && (
        call matches CriCall::StartContainer(c) && c == id)),
        at matches CriStart::Launch { key, container_id } ==> (reply is Started ==> next is ReadBack
            && new.pods.dom().contains(container_id@) && new.pods[container_id@] == key@ && (
        call matches CriCall::ContainerStatus(c) && c == container_id)),
        reply matches CriReply::Described(seen) ==> next is Over && (match seen {
            Some(d) => call matches CriCall::Finish(Ok(s)) && described(s, d),
            None => call matches CriCall::Finish(Err(_)),
        }),
{
}

/// A runtime is sought at the address that is given and at no other, and where none is given at the
/// three that runtimes are found at.
pub proof fn where_a_runtime_is_sought(given: Seq<char>)
    ensures
        candidates(Some(given)).len() == 1,
        candidates(Some(given))[0] == given,
        candidates(None).len() == 3,
        candidates(None)[0] == "unix:///run/containerd/containerd.sock"@,
        candidates(None)[1] == "unix:///run/crio/crio.sock"@,
        candidates(None)[2] == "unix:///var/run/cri-dockerd.sock"@,
{
}

/// What is not carried out yet: the volumes, the address, what a container may do.
pub proof fn what_is_not_carried_out(g: CriGap)
    ensures
        all_gaps().contains(g),
        all_gaps().len() == 3,
{
    assert(all_gaps()[0] is Mounts);
    assert(all_gaps()[1] is PodIp);
    assert(all_gaps()[2] is SecurityContext);
    match g {
        CriGap::Mounts => assert(all_gaps()[0] == g),
        CriGap::PodIp => assert(all_gaps()[1] == g),
        CriGap::SecurityContext => assert(all_gaps()[2] == g),
    }
}

/// What was asked is answered by what was asked for, or by that it failed; a start that is over asks
/// nothing.
pub proof fn what_answers_what(at: CriStart, reply: CriReply)
    ensures
        !(at is Over) && reply is Failed ==> answers(at, reply),
        at is Sandbox && !(reply is Failed) ==> (answers(at, reply) <==> reply is SandboxRuns),
        at is Image && !(reply is Failed) ==> (answers(at, reply) <==> reply is ImageSeen),
        at is Pull && !(reply is Failed) ==> (answers(at, reply) <==> reply is ImagePulled),
        at is Create && !(reply is Failed) ==> (answers(at, reply) <==> reply is Created),
        at is Launch && !(reply is Failed) ==> (answers(at, reply) <==> reply is Started),
        at is ReadBack && !(reply is Failed) ==> (answers(at, reply) <==> reply is Described),
        at is Over ==> !answers(at, reply),
{
}

/// A failed call is told by its name and its words, and that of an image with the image.
pub proof fn how_a_failed_call_is_told(at: CriStart, image: Seq<char>, words: Seq<char>)
    ensures
        at is Sandbox ==> failure_words(at, image, words) == "RunPodSandbox"@ + ": "@ + words,
        at is Image ==> failure_words(at, image, words) == "ImageStatus"@ + ": "@ + words,
        at is Pull ==> failure_words(at, image, words) == "PullImage "@ + image + ": "@ + words,
        at is Create ==> failure_words(at, image, words) == "CreateContainer"@ + ": "@ + words,
        at is Launch ==> failure_words(at, image, words) == "StartContainer"@ + ": "@ + words,
        at is ReadBack ==> failure_words(at, image, words) == "ContainerStatus"@ + ": "@ + words,
        rpc_name(Rpc::RunPodSandbox) == "RunPodSandbox"@,
        rpc_name(Rpc::StopPodSandbox) == "StopPodSandbox"@,
        rpc_name(Rpc::RemovePodSandbox) == "RemovePodSandbox"@,
        rpc_name(Rpc::ImageStatus) == "ImageStatus"@,
        rpc_name(Rpc::CreateContainer) == "CreateContainer"@,
        rpc_name(Rpc::StartContainer) == "StartContainer"@,
        rpc_name(Rpc::ContainerStatus) == "ContainerStatus"@,
        rpc_name(Rpc::StopContainer) == "StopContainer"@,
        rpc_name(Rpc::RemoveContainer) == "RemoveContainer"@,
        rpc_name(Rpc::ExecSync) == "ExecSync"@,
{
}

/// An address is passed over where it names no socket, or where none was found at the path that it
/// names.
pub proof fn which_addresses_are_passed_over<F: Fn(&str) -> bool>(
    raw: Seq<char>,
    path: Seq<char>,
    exists_at: F,
)
    ensures
        cri::socket_path(raw) is None ==> passed_over(raw, exists_at),
        cri::socket_path(raw) == Some(path) && passed_over(raw, exists_at) ==> exists|p: &str|
            p@ == path && call_ensures(exists_at, (p,), false),
{
}

/// Pods are put in order by their namespaces, then by their names, then by their uids.
pub proof fn how_pods_are_put_in_order(a: KeyView, b: KeyView)
    ensures
        a.namespace != b.namespace ==> (key_less(a, b) <==> text::lex_less(
            a.namespace,
            b.namespace,
        )),
        a.namespace == b.namespace && a.name != b.name ==> (key_less(a, b) <==> text::lex_less(
            a.name,
            b.name,
        )),
        a.namespace == b.namespace && a.name == b.name ==> (key_less(a, b) <==> text::lex_less(
            a.uid,
            b.uid,
        )),
{
    text::lex_less_irreflexive(a.namespace);
    text::lex_less_irreflexive(a.name);
}

} // verus!
