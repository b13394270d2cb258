//! Type identities for entity components.
//!
//! A component type is identified either by the token that the host's static
//! type reflection hands out for a compile-time-known type, or by a 64-bit
//! tag that a dynamic registration layer assigns at run time. The two kinds
//! never compare equal to each other.

use vstd::prelude::*;
use vstd::std_specs::cmp::PartialEqSpec;
use vstd::std_specs::cmp::PartialOrdSpec;

use crate::storage::ComponentStorage;

verus! {

/// Makes `core::any::TypeId` usable in signatures and fields. The value is
/// opaque: nothing of its inside is visible to proofs.
#[verifier::external_type_specification]
#[verifier::external_body]
pub struct ExReflectionToken(core::any::TypeId);

/// The position of a reflection token in the total order that
/// `core::any::TypeId`'s derived `Ord` puts on tokens. Two tokens share a
/// rank exactly when they are the same token; nothing else is known of it.
pub uninterp spec fn token_rank(t: core::any::TypeId) -> int;

/// Relies on `core::any::TypeId::of`: the reflection token of a
/// compile-time-known type.
pub assume_specification<T: ?Sized + 'static>[ core::any::TypeId::of::<T> ]() -> core::any::TypeId
;

/// Relies on `core::any::TypeId`'s derived `Ord`, a total order on tokens
/// that agrees with its derived `Eq`: `Equal` comes back exactly for the
/// same token, and otherwise the answer follows the tokens' ranks.
pub assume_specification[ <core::any::TypeId as Ord>::cmp ](
    a: &core::any::TypeId,
    b: &core::any::TypeId,
) -> (r: core::cmp::Ordering)
    ensures
        (r == core::cmp::Ordering::Equal) <==> (*a == *b),
        (r == core::cmp::Ordering::Less) <==> token_rank(*a) < token_rank(*b),
        (r == core::cmp::Ordering::Greater) <==> token_rank(*a) > token_rank(*b),
;

/// The identity of a component type: either the reflection token of a type
/// known at build time, or a caller-assigned 64-bit tag for a component
/// kind registered at run time. Uniqueness of the tags is the registering
/// caller's responsibility; nothing here checks for collisions.
#[derive(Copy, Clone, Debug, Eq, Ord, Hash)]
pub enum TypeId {
    /// Identity derived from the host's static type reflection.
    Internal(core::any::TypeId),
    /// Identity assigned by an external registration layer.
    External(u64),
}

/// Which of the two identity kinds a value is: build-time identities sort
/// before run-time ones.
pub open spec fn id_class(t: TypeId) -> int {
    match t {
        TypeId::Internal(_) => 0,
        TypeId::External(_) => 1,
    }
}

/// The place of an identity within its kind: a reflection token's rank, or
/// the tag value itself.
pub open spec fn id_rank(t: TypeId) -> int {
    match t {
        TypeId::Internal(tok) => token_rank(tok),
        TypeId::External(tag) => tag as int,
    }
}

/// What equality of two identities means: same kind and same place within
/// the kind. Identities of different kinds are never equal.
pub open spec fn id_eq(a: TypeId, b: TypeId) -> bool {
    id_class(a) == id_class(b) && id_rank(a) == id_rank(b)
}

/// The total order on identities: by kind first, then by place within the
/// kind.
pub open spec fn id_le(a: TypeId, b: TypeId) -> bool {
    id_class(a) < id_class(b) || (id_class(a) == id_class(b) && id_rank(a) <= id_rank(b))
}

/// What comparing two identities answers: the three-way outcome of the
/// total order [`id_le`], with [`id_eq`] as its equal case.
pub open spec fn id_order(a: TypeId, b: TypeId) -> Option<core::cmp::Ordering> {
    if id_eq(a, b) {
        Some(core::cmp::Ordering::Equal)
    } else if id_le(a, b) {
        Some(core::cmp::Ordering::Less)
    } else {
        Some(core::cmp::Ordering::Greater)
    }
}

impl PartialEq for TypeId {
    fn eq(&self, other: &Self) -> (r: bool) {
        match (self, other) {
            (TypeId::Internal(a), TypeId::Internal(b)) => {
                matches!(a.cmp(b), core::cmp::Ordering::Equal)
            },
            (TypeId::External(a), TypeId::External(b)) => *a == *b,
            _ => false,
        }
    }
}

impl vstd::std_specs::cmp::PartialEqSpecImpl for TypeId {
    open spec fn obeys_eq_spec() -> bool {
        true
    }

    open spec fn eq_spec(&self, other: &TypeId) -> bool {
        id_eq(*self, *other)
    }
}

impl PartialOrd for TypeId {
    fn partial_cmp(&self, other: &Self) -> (r: Option<core::cmp::Ordering>) {
        match (self, other) {
            (TypeId::Internal(a), TypeId::Internal(b)) => Some(a.cmp(b)),
            (TypeId::Internal(_), TypeId::External(_)) => Some(core::cmp::Ordering::Less),
            (TypeId::External(_), TypeId::Internal(_)) => Some(core::cmp::Ordering::Greater),
            (TypeId::External(a), TypeId::External(b)) => {
                if *a < *b {
                    Some(core::cmp::Ordering::Less)
                } else if *a == *b {
                    Some(core::cmp::Ordering::Equal)
                } else {
                    Some(core::cmp::Ordering::Greater)
                }
            },
        }
    }
}

impl vstd::std_specs::cmp::PartialOrdSpecImpl for TypeId {
    open spec fn obeys_partial_cmp_spec() -> bool {
        true
    }

    open spec fn partial_cmp_spec(&self, other: &TypeId) -> Option<core::cmp::Ordering> {
        id_order(*self, *other)
    }
}

/// A unique ID for a component type: one [`TypeId`] plus, for diagnostics
/// only, an optional human-readable name. Equality, ordering and hashing go
/// by the identity alone; the name never takes part.
///
/// External registration layers assemble a handle for a run-time component
/// kind by choosing the [`TypeId::External`] variant directly.
#[derive(Copy, Clone, Debug, Eq)]
pub struct ComponentTypeId {
    /// The identity the handle stands for.
    pub type_id: TypeId,
    /// A diagnostic name, carried only in builds that want one.
    pub name: Option<&'static str>,
}

impl ComponentTypeId {
    /// Constructs the component type ID for the given component type, with
    /// no diagnostic name attached.
    pub fn of<T: Component>() -> (r: Self)
        ensures
            r.type_id is Internal,
            r.name is None,
    {
        ComponentTypeId { type_id: TypeId::Internal(core::any::TypeId::of::<T>()), name: None }
    }

    /// The same handle with a diagnostic name attached, as a build with
    /// diagnostics on would carry. The identity is untouched, so the named
    /// and the unnamed handle compare equal everywhere.
    pub fn with_name(self, name: &'static str) -> (r: Self)
        ensures
            r.type_id == self.type_id,
            r.name == Some(name),
    {
        ComponentTypeId { type_id: self.type_id, name: Some(name) }
    }
}

/// Relies on the `Debug` rendering of `core::any::TypeId`: fallback text
/// for a reflection token when no diagnostic name is carried. The text is
/// purely cosmetic, so nothing is claimed of it.
#[verifier::external_body]
fn reflection_token_text(t: &core::any::TypeId) -> String {
    format!("{:?}", t)
}

impl ComponentTypeId {
    /// The text the handle shows: the diagnostic name when one is carried,
    /// else a textual form of the raw identity. Cosmetic only: two equal
    /// handles may show different text, and never the other way around.
    pub fn display_string(&self) -> (r: String)
        ensures
            self.name matches Some(n) ==> r@ == n@,
            self.type_id matches TypeId::External(tag) ==> self.name is None ==> r@
                == crate::display::external_text(tag),
    {
        match self.name {
            Some(n) => n.to_owned(),
            None => match &self.type_id {
                TypeId::Internal(tok) => reflection_token_text(tok),
                TypeId::External(tag) => crate::display::external_string(*tag),
            },
        }
    }
}

impl PartialEq for ComponentTypeId {
    fn eq(&self, other: &Self) -> (r: bool) {
        self.type_id == other.type_id
    }
}

impl vstd::std_specs::cmp::PartialEqSpecImpl for ComponentTypeId {
    open spec fn obeys_eq_spec() -> bool {
        true
    }

    open spec fn eq_spec(&self, other: &ComponentTypeId) -> bool {
        id_eq(self.type_id, other.type_id)
    }
}

impl PartialOrd for ComponentTypeId {
    fn partial_cmp(&self, other: &Self) -> (r: Option<core::cmp::Ordering>) {
        self.type_id.partial_cmp(&other.type_id)
    }
}

impl vstd::std_specs::cmp::PartialOrdSpecImpl for ComponentTypeId {
    open spec fn obeys_partial_cmp_spec() -> bool {
        true
    }

    open spec fn partial_cmp_spec(&self, other: &ComponentTypeId) -> Option<core::cmp::Ordering> {
        id_order(self.type_id, other.type_id)
    }
}

impl core::hash::Hash for ComponentTypeId {
    /// Relies on the derived `Hash` of [`TypeId`]: the handle hashes as its
    /// identity alone, so the diagnostic name never reaches the hasher and
    /// equal handles hash identically.
    #[verifier::external_body]
    fn hash<H: core::hash::Hasher>(&self, state: &mut H) {
        self.type_id.hash(state);
    }
}

/// Two run-time identities are equal exactly when their raw 64-bit tags
/// are; distinct tags give identities that never compare equal.
pub proof fn lemma_external_tags_decide_equality(a: u64, b: u64)
    ensures
        id_eq(TypeId::External(a), TypeId::External(b)) <==> a == b,
{
}

/// A build-time identity and a run-time identity are never equal,
/// regardless of the bit patterns underneath.
pub proof fn lemma_kinds_never_equal(t: core::any::TypeId, tag: u64)
    ensures
        !id_eq(TypeId::Internal(t), TypeId::External(tag)),
        !id_eq(TypeId::External(tag), TypeId::Internal(t)),
{
}

/// Two build-time identities are equal exactly when their reflection
/// tokens share a rank, that is, when the host's reflection facility says
/// the types are the same: the wrapping adds no collisions of its own.
pub proof fn lemma_internal_eq_is_token_eq(a: core::any::TypeId, b: core::any::TypeId)
    ensures
        id_eq(TypeId::Internal(a), TypeId::Internal(b)) <==> token_rank(a) == token_rank(b),
{
}

/// Identity equality is an equivalence relation, so a handle derived a
/// second time for the same identity compares equal to the first.
pub proof fn lemma_id_eq_equivalence(a: TypeId, b: TypeId, c: TypeId)
    ensures
        id_eq(a, a),
        id_eq(a, b) == id_eq(b, a),
        id_eq(a, b) && id_eq(b, c) ==> id_eq(a, c),
{
}

/// What a handle's `==` and `partial_cmp` mean goes by the wrapped
/// identity alone: handles with the same identity but any two diagnostic
/// names compare equal, and order the same against everything.
pub proof fn lemma_name_never_affects_identity(
    t: TypeId,
    n1: Option<&'static str>,
    n2: Option<&'static str>,
    other: ComponentTypeId,
)
    ensures
        (ComponentTypeId { type_id: t, name: n1 }).eq_spec(
            &(ComponentTypeId { type_id: t, name: n2 }),
        ),
        (ComponentTypeId { type_id: t, name: n1 }).eq_spec(&other) == id_eq(t, other.type_id),
        (ComponentTypeId { type_id: t, name: n1 }).partial_cmp_spec(&other) == id_order(
            t,
            other.type_id,
        ),
{
}

/// The order on identities is total: any two identities are comparable.
pub proof fn lemma_order_total(a: TypeId, b: TypeId)
    ensures
        id_le(a, b) || id_le(b, a),
{
}

/// The order on identities is antisymmetric: mutual `id_le` holds exactly
/// of equal identities.
pub proof fn lemma_order_antisymmetric(a: TypeId, b: TypeId)
    ensures
        (id_le(a, b) && id_le(b, a)) <==> id_eq(a, b),
{
}

/// The order on identities is transitive.
pub proof fn lemma_order_transitive(a: TypeId, b: TypeId, c: TypeId)
    requires
        id_le(a, b),
        id_le(b, c),
    ensures
        id_le(a, c),
{
}

/// Comparing two identities answers `Some` of exactly one of the three
/// outcomes, and each outcome says what it should of `id_eq` and `id_le`:
/// handles sort deterministically by it.
pub proof fn lemma_order_decides(a: TypeId, b: TypeId)
    ensures
        id_order(a, b) == Some(core::cmp::Ordering::Equal) <==> id_eq(a, b),
        id_order(a, b) == Some(core::cmp::Ordering::Less) <==> (!id_eq(a, b) && id_le(a, b)),
        id_order(a, b) == Some(core::cmp::Ordering::Greater) <==> (!id_eq(a, b) && !id_le(a, b)),
{
}

/// The handles stand in the order of their identities: what a sorted
/// archetype signature looks like.
pub open spec fn sorted_handles(s: Seq<ComponentTypeId>) -> bool {
    forall|i: int, j: int|
        0 <= i <= j < s.len() ==> id_le((#[trigger] s[i]).type_id, (#[trigger] s[j]).type_id)
}

/// Inserting an element anywhere in a sequence adds exactly it to the
/// sequence's multiset.
proof fn lemma_insert_to_multiset<T>(s: Seq<T>, i: int, x: T)
    requires
        0 <= i <= s.len(),
    ensures
        s.insert(i, x).to_multiset() == s.to_multiset().insert(x),
{
    let t = s.insert(i, x);
    t.to_multiset_ensures();
    s.to_multiset_ensures();
    assert(t[i] == x);
    assert(t.remove(i) =~= s);
    assert(t.to_multiset().remove(x) =~= s.to_multiset());
    assert(t.to_multiset().contains(x));
    assert(t.to_multiset() =~= s.to_multiset().insert(x));
}

/// Sorts a signature of handles by their identities: the result is in
/// order and holds exactly the handles given, so any set of handles sorts
/// to one deterministic signature.
pub fn sort_handles(handles: Vec<ComponentTypeId>) -> (r: Vec<ComponentTypeId>)
    ensures
        sorted_handles(r@),
        r@.to_multiset() == handles@.to_multiset(),
{
    let mut out: Vec<ComponentTypeId> = Vec::new();
    let mut k: usize = 0;
    proof {
        assert(out@ =~= handles@.subrange(0, 0));
    }
    while k < handles.len()
        invariant
            k <= handles@.len(),
            sorted_handles(out@),
            out@.to_multiset() == handles@.subrange(0, k as int).to_multiset(),
        decreases handles@.len() - k,
    {
        let h = handles[k];
        let mut i: usize = 0;
        while i < out.len() && out[i].le(&h)
            invariant
                i <= out@.len(),
                forall|j: int| 0 <= j < i ==> id_le((#[trigger] out@[j]).type_id, h.type_id),
            decreases out@.len() - i,
        {
            i = i + 1;
        }
        let ghost before = out@;
        out.insert(i, h);
        proof {
            lemma_insert_to_multiset(before, i as int, h);
            assert(forall|j: int| 0 <= j < i ==> out@[j] == before[j]);
            assert(out@[i as int] == h);
            assert(forall|j: int| i < j < out@.len() ==> out@[j] == before[j - 1]);
            assert(sorted_handles(out@));
            let ghost prefix = handles@.subrange(0, k as int);
            prefix.to_multiset_ensures();
            assert(handles@.subrange(0, k as int + 1) =~= prefix.push(handles@[k as int]));
            assert(out@.to_multiset() =~= handles@.subrange(0, k as int + 1).to_multiset());
        }
        k = k + 1;
    }
    proof {
        assert(handles@.subrange(0, handles@.len() as int) =~= handles@);
    }
    out
}

/// A marker trait for all types which can be attached to an entity: plain
/// data that owns itself and may cross threads.
///
/// This trait has a blanket impl for all applicable types, which binds each
/// of them to the default packed storage. The binding is a type-level fact:
/// resolving it costs nothing at run time, and the one blanket impl means
/// exactly one storage type exists per component type.
pub trait Component: 'static + Sized + Send + Sync {
    /// The storage type required to hold all instances of this component in
    /// a world.
    type Storage: crate::storage::ComponentStorage<Self>;
}

impl<T: 'static + Sized + Send + Sync> Component for T {
    type Storage = crate::storage::PackedStorage<T>;
}

/// An empty storage of the type that `C` is bound to, resolved entirely at
/// compile time: generic code over a component type reaches the right
/// backend with no run-time lookup.
pub fn storage_of<C: Component>() -> (s: C::Storage)
    ensures
        s.contents() == Map::<u64, C>::empty(),
{
    <C as Component>::Storage::empty()
}

} // verus!
