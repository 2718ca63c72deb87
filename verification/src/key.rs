//! The key of the containers: a token that identifies a static type.

use std::any::TypeId;
use vstd::prelude::*;
use vstd::std_specs::cmp::PartialEqSpecImpl;
use vstd::string::*;

verus! {

#[verifier::external_type_specification]
#[verifier::external_body]
pub struct ExTypeId(TypeId);

/// `TypeId::of::<T>()`: the identity that the compiler gave to `T`. Nothing is
/// claimed of the value: it differs from one build to the next.
#[verifier::external_body]
fn identity_of<T: 'static>() -> TypeId {
    TypeId::of::<T>()
}

/// Whether `id` is an identity that `TypeId::of` gives for the type `T`.
pub closed spec fn identifies<T: 'static>(id: TypeId) -> bool {
    call_ensures(identity_of::<T>, (), id)
}

/// `TypeId`'s `==`: two identities compare equal exactly when they are the same
/// value.
#[verifier::external_body]
fn same_identity(a: &TypeId, b: &TypeId) -> (r: bool)
    ensures
        r == (*a == *b),
{
    a == b
}

/// `TypeId`'s `Hash::hash`: feeds the identity to the hasher.
#[verifier::external_body]
fn hash_identity<H: std::hash::Hasher>(id: &TypeId, state: &mut H) {
    std::hash::Hash::hash(id, state)
}

/// `str`'s `==`: two strings compare equal exactly when they hold the same
/// characters.
#[verifier::external_body]
fn same_text(a: &str, b: &str) -> (r: bool)
    ensures
        r == (a@ == b@),
{
    a == b
}

/// The part of a type's description that names the type itself: what stands
/// before the first `<`, after the last `:` of that prefix.
pub open spec fn short_name(name: Seq<char>) -> Seq<char> {
    let to = match name.index_of_first('<') {
        Some(i) => i,
        None => name.len() as int,
    };
    let from = match name.take(to).index_of_last(':') {
        Some(i) => i + 1,
        None => 0,
    };
    name.subrange(from, to)
}

/// Computes [`short_name`] of a description.
pub fn short_name_of(name: &str) -> (r: &str)
    ensures
        r@ == short_name(name@),
{
    let n: usize = name.unicode_len();
    let mut to: usize = 0;
    while to < n && name.get_char(to) != '<'
        invariant
            n == name@.len(),
            to <= n,
            forall|j: int| 0 <= j < to ==> name@[j] != '<',
        decreases n - to,
    {
        to += 1;
    }
    let mut from: usize = to;
    while from > 0 && name.get_char(from - 1) != ':'
        invariant
            n == name@.len(),
            from <= to <= n,
            forall|j: int| from <= j < to ==> name@[j] != ':',
        decreases from,
    {
        from -= 1;
    }
    proof {
        let s = name@;
        s.index_of_first_ensures('<');
        if to < n {
            assert(s.contains('<'));
            assert(s.index_of_first('<') == Some(to as int));
        } else {
            assert(s.index_of_first('<') is None);
        }
        let prefix = s.take(to as int);
        prefix.index_of_last_ensures(':');
        if from > 0 {
            assert(prefix[from - 1] == ':');
            assert(prefix.contains(':'));
            assert(prefix.index_of_last(':') == Some(from - 1));
        } else {
            assert(forall|j: int| 0 <= j < prefix.len() ==> prefix[j] == s[j]);
            assert(prefix.index_of_last(':') is None);
        }
    }
    name.substring_char(from, to)
}

/// Whether `key` is a key of the type `T`: its identity is one that
/// `TypeId::of` gives for `T`. The description takes no part in that.
pub open spec fn key_of<T: 'static>(key: Type) -> bool {
    identifies::<T>(key.identity())
}

/// A key that identifies a static type: the compiler's identity of the type
/// and a description of it. Two keys are the same key when their identities
/// are equal; the description takes no part in that.
#[derive(Clone, Copy, Debug, Eq)]
pub struct Type(TypeId, &'static str);

impl Type {
    /// The identity by which keys are told apart.
    pub closed spec fn identity(self) -> TypeId {
        self.0
    }

    /// The description of the type: free text, which may be empty.
    pub closed spec fn name(self) -> Seq<char> {
        self.1@
    }

    /// Whether `text` is the description of the type.
    pub open spec fn described_by(self, text: &str) -> bool {
        text@ == self.name()
    }

    /// Whether `id` is the identity of the type.
    pub open spec fn identified_by(self, id: &TypeId) -> bool {
        *id == self.identity()
    }

    /// Whether two keys stand for the same type.
    pub open spec fn same(self, other: Type) -> bool {
        self.identity() == other.identity()
    }

    /// The key of the type `T`, described by `description`: free text that
    /// names the type to a reader, and takes no part in telling keys apart.
    #[must_use]
    pub fn of<T: 'static>(description: &'static str) -> (r: Type)
        ensures
            identifies::<T>(r.identity()),
            r.name() == description@,
    {
        Type(identity_of::<T>(), description)
    }

    /// The key of the type that has the identity `id`, described by
    /// `description`.
    #[must_use]
    pub fn from_id(id: TypeId, description: &'static str) -> (r: Type)
        ensures
            r.identity() == id,
            r.name() == description@,
    {
        Type(id, description)
    }

    /// The same key, described by `description`.
    #[must_use]
    pub fn with_description(self, description: &'static str) -> (r: Type)
        ensures
            r.identity() == self.identity(),
            r.name() == description@,
    {
        Type(self.0, description)
    }

    /// The identity of the type, unique among all types of the program.
    #[must_use]
    pub fn as_id(&self) -> (r: &TypeId)
        ensures
            *r == self.identity(),
    {
        &self.0
    }

    /// The identity of the type, unique among all types of the program.
    #[must_use]
    pub fn to_id(&self) -> (r: TypeId)
        ensures
            r == self.identity(),
    {
        self.0
    }

    /// The description of the type. Descriptions are not unique.
    #[must_use]
    pub fn as_str(&self) -> (r: &str)
        ensures
            r@ == self.name(),
    {
        self.1
    }

    /// The short name of the type: [`short_name`] of its description.
    #[must_use]
    pub fn as_name(&self) -> (r: &str)
        ensures
            r@ == short_name(self.name()),
    {
        short_name_of(self.1)
    }

    /// The short name of the type, as an owned string.
    #[must_use]
    pub fn to_name(&self) -> (r: String)
        ensures
            r@ == short_name(self.name()),
    {
        self.as_name().to_owned()
    }

    /// Whether `name` is the description of the type.
    #[must_use]
    pub fn is_named(&self, name: &str) -> (r: bool)
        ensures
            r == (self.name() == name@),
    {
        same_text(self.1, name)
    }

    /// The description of the type, as an owned string.
    #[must_use]
    pub fn to_string(&self) -> (r: String)
        ensures
            r@ == self.name(),
    {
        self.1.to_owned()
    }
}

impl AsRef<str> for Type {
    /// The description of the type.
    fn as_ref(&self) -> (r: &str)
        ensures
            self.described_by(r),
    {
        self.as_str()
    }
}

impl AsRef<TypeId> for Type {
    /// The identity of the type.
    fn as_ref(&self) -> (r: &TypeId)
        ensures
            self.identified_by(r),
    {
        self.as_id()
    }
}

impl std::hash::Hash for Type {
    /// Feeds the identity, and nothing else, to the hasher: keys that are
    /// equal hash alike.
    fn hash<H: std::hash::Hasher>(&self, state: &mut H) {
        hash_identity(&self.0, state)
    }
}

impl PartialEq for Type {
    fn eq(&self, other: &Self) -> (r: bool) {
        same_identity(&self.0, &other.0)
    }
}

impl PartialEqSpecImpl for Type {
    open spec fn obeys_eq_spec() -> bool {
        true
    }

    open spec fn eq_spec(&self, other: &Self) -> bool {
        self.same(*other)
    }
}

} // verus!
