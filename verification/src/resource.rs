//! The names of objects in the store.

use vstd::prelude::*;
use crate::text::{cat3, same};

verus! {

/// The name of an object.
#[derive(Debug, PartialEq, Eq)]
pub struct ResourceKey {
    pub group: String,
    pub version: String,
    pub kind: String,
    /// The namespace, for an object that lives in one.
    pub namespace: Option<String>,
    pub name: String,
}

/// What a `ResourceKey` stands for.
pub struct KeyView {
    pub group: Seq<char>,
    pub version: Seq<char>,
    pub kind: Seq<char>,
    pub namespace: Option<Seq<char>>,
    pub name: Seq<char>,
}

impl View for ResourceKey {
    type V = KeyView;

    open spec fn view(&self) -> KeyView {
        KeyView {
            group: self.group@,
            version: self.version@,
            kind: self.kind@,
            namespace: crate::lifecycle::opt_string(self.namespace),
            name: self.name@,
        }
    }
}

/// The key of an object in a namespace.
pub open spec fn key_in(
    group: Seq<char>,
    version: Seq<char>,
    kind: Seq<char>,
    namespace: Seq<char>,
    name: Seq<char>,
) -> KeyView {
    KeyView { group, version, kind, namespace: Some(namespace), name }
}

/// The namespace of a key, `default` where there is none.
pub open spec fn namespace_of(k: KeyView) -> Seq<char> {
    match k.namespace {
        Some(ns) => ns,
        None => "default"@,
    }
}

/// The namespace and the name of a key, for a reader.
pub open spec fn label_of(k: KeyView) -> Seq<char> {
    match k.namespace {
        Some(ns) => ns + "/"@ + k.name,
        None => k.name,
    }
}

impl ResourceKey {
    /// The key of an object in a namespace.
    pub fn namespaced(group: &str, version: &str, kind: &str, namespace: &str, name: &str) -> (r:
        ResourceKey)
        ensures
            r@ == key_in(group@, version@, kind@, namespace@, name@),
    {
        ResourceKey {
            group: group.to_owned(),
            version: version.to_owned(),
            kind: kind.to_owned(),
            namespace: Some(namespace.to_owned()),
            name: name.to_owned(),
        }
    }

    /// The key of an object that lives in no namespace.
    pub fn cluster_scoped(group: &str, version: &str, kind: &str, name: &str) -> (r: ResourceKey)
        ensures
            r@ == (KeyView {
                group: group@,
                version: version@,
                kind: kind@,
                namespace: None,
                name: name@,
            }),
    {
        ResourceKey {
            group: group.to_owned(),
            version: version.to_owned(),
            kind: kind.to_owned(),
            namespace: None,
            name: name.to_owned(),
        }
    }

    /// The namespace, `default` where there is none.
    pub fn namespace_or_default(&self) -> (r: &str)
        ensures
            r@ == namespace_of(self@),
    {
        match &self.namespace {
            Some(ns) => ns.as_str(),
            None => "default",
        }
    }

    /// Whether the two name the same object.
    pub fn same(&self, other: &ResourceKey) -> (r: bool)
        ensures
            r == (self@ == other@),
    {
        same(self.group.as_str(), other.group.as_str()) && same(
            self.version.as_str(),
            other.version.as_str(),
        ) && same(self.kind.as_str(), other.kind.as_str()) && same(
            self.name.as_str(),
            other.name.as_str(),
        ) && match (&self.namespace, &other.namespace) {
            (Some(a), Some(b)) => same(a.as_str(), b.as_str()),
            (None, None) => true,
            _ => false,
        }
    }

    /// A copy.
    pub fn copy(&self) -> (r: ResourceKey)
        ensures
            r == *self,
    {
        ResourceKey {
            group: self.group.clone(),
            version: self.version.clone(),
            kind: self.kind.clone(),
            namespace: crate::text::clone_opt(&self.namespace),
            name: self.name.clone(),
        }
    }

    /// The object's namespace and name, for a reader.
    pub fn label(&self) -> (r: String)
        ensures
            r@ == label_of(self@),
    {
        match &self.namespace {
            Some(ns) => cat3(ns.as_str(), "/", self.name.as_str()),
            None => self.name.clone(),
        }
    }
}

// ---- laws ----------------------------------------------------------------------------------

/// An object in a namespace is found and told by that and its name, and one in none by its name; where
/// a namespace is needed that is the default one.
pub proof fn how_an_object_is_told(k: KeyView)
    ensures
        k.namespace matches Some(ns) ==> namespace_of(k) == ns && label_of(k) == ns + "/"@ + k.name,
        k.namespace is None ==> namespace_of(k) == "default"@ && label_of(k) == k.name,
{
}

/// A key in a namespace has just the parts that it was made of.
pub proof fn a_key_has_its_parts(
    group: Seq<char>,
    version: Seq<char>,
    kind: Seq<char>,
    namespace: Seq<char>,
    name: Seq<char>,
)
    ensures
        ({
            let k = key_in(group, version, kind, namespace, name);
            &&& k.group == group
            &&& k.version == version
            &&& k.kind == kind
            &&& k.namespace == Some(namespace)
            &&& k.name == name
        }),
{
}

} // verus!
