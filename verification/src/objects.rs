//! The object and key model of the cache.
//!
//! An object's identity (kind, optional namespace, name) is separated from
//! its mutable payload: two objects with the same identity attributes always
//! produce equal keys, whatever their payloads.

use vstd::prelude::*;

verus! {

/// The mathematical value of an [`ObjectKey`]: its three identity
/// attributes, each as a sequence of characters.
#[verifier::ext_equal]
pub ghost struct KeyView {
    pub kind: Seq<char>,
    pub namespace: Option<Seq<char>>,
    pub name: Seq<char>,
}

/// The mathematical value of a [`CachedObject`]: its identity attributes
/// together with its payload.
#[verifier::ext_equal]
pub ghost struct ObjView {
    pub kind: Seq<char>,
    pub namespace: Option<Seq<char>>,
    pub name: Seq<char>,
    pub payload: Seq<char>,
}

/// The identity of an object under which the cache keeps it: derived only
/// from immutable identity attributes, never from the payload.
#[derive(Debug, PartialEq, Eq, Hash)]
pub struct ObjectKey {
    pub kind: String,
    pub namespace: Option<String>,
    pub name: String,
}

/// A full snapshot of one object's observed state: its identity attributes
/// plus an opaque payload.
#[derive(Debug, PartialEq, Eq)]
pub struct CachedObject {
    pub kind: String,
    pub namespace: Option<String>,
    pub name: String,
    pub payload: String,
}

impl View for ObjectKey {
    type V = KeyView;

    open spec fn view(&self) -> KeyView {
        KeyView {
            kind: self.kind@,
            namespace: match self.namespace {
                Option::Some(s) => Option::Some(s@),
                Option::None => Option::None,
            },
            name: self.name@,
        }
    }
}

impl View for CachedObject {
    type V = ObjView;

    open spec fn view(&self) -> ObjView {
        ObjView {
            kind: self.kind@,
            namespace: match self.namespace {
                Option::Some(s) => Option::Some(s@),
                Option::None => Option::None,
            },
            name: self.name@,
            payload: self.payload@,
        }
    }
}

/// The key under which an object stands in the store: its identity
/// attributes, with the payload forgotten.
pub open spec fn key_of(o: ObjView) -> KeyView {
    KeyView { kind: o.kind, namespace: o.namespace, name: o.name }
}

/// The set of key views that occur in a sequence of keys.
pub open spec fn key_view_set(keys: Seq<ObjectKey>) -> Set<KeyView> {
    Set::new(|kv: KeyView| exists|i: int| 0 <= i < keys.len() && (#[trigger] keys[i])@ == kv)
}

fn clone_namespace(ns: &Option<String>) -> (r: Option<String>)
    ensures
        r == *ns,
{
    match ns {
        Option::Some(s) => Option::Some(s.clone()),
        Option::None => Option::None,
    }
}

impl Clone for ObjectKey {
    fn clone(&self) -> (r: Self)
        ensures
            r == *self,
    {
        ObjectKey {
            kind: self.kind.clone(),
            namespace: clone_namespace(&self.namespace),
            name: self.name.clone(),
        }
    }
}

impl Clone for CachedObject {
    fn clone(&self) -> (r: Self)
        ensures
            r == *self,
    {
        CachedObject {
            kind: self.kind.clone(),
            namespace: clone_namespace(&self.namespace),
            name: self.name.clone(),
            payload: self.payload.clone(),
        }
    }
}

impl CachedObject {
    /// The pure identity function: the key of this object, independent of
    /// its payload.
    pub fn identity(&self) -> (k: ObjectKey)
        ensures
            k@ == key_of(self@),
    {
        ObjectKey {
            kind: self.kind.clone(),
            namespace: clone_namespace(&self.namespace),
            name: self.name.clone(),
        }
    }
}

/// Whether two keys denote the same identity, decided on the key views.
pub fn key_eq(a: &ObjectKey, b: &ObjectKey) -> (r: bool)
    ensures
        r == (a@ == b@),
{
    let kind_eq = a.kind == b.kind;
    let ns_eq = match (&a.namespace, &b.namespace) {
        (Option::Some(x), Option::Some(y)) => *x == *y,
        (Option::None, Option::None) => true,
        _ => false,
    };
    let name_eq = a.name == b.name;
    let r = kind_eq && ns_eq && name_eq;
    proof {
        if r {
            assert(a@ =~= b@);
        }
    }
    r
}

/// Whether `k`'s view occurs among the views of `keys`.
pub fn key_vec_contains(keys: &Vec<ObjectKey>, k: &ObjectKey) -> (r: bool)
    ensures
        r == key_view_set(keys@).contains(k@),
{
    let mut i: usize = 0;
    while i < keys.len()
        invariant
            i <= keys.len(),
            forall|n: int| 0 <= n < i ==> (#[trigger] keys@[n])@ != k@,
        decreases keys.len() - i,
    {
        if key_eq(&keys[i], k) {
            return true;
        }
        i += 1;
    }
    false
}

} // verus!
