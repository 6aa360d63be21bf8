use vstd::prelude::*;
use crate::engine::{compose, composed};
use crate::identity::{Identity, hyphenated_value, is_hyphenated, parse_identity};

verus! {

/// Why a declaration cannot yield a seed identity.
#[derive(Clone, Copy, PartialEq, Eq, Structural, Debug)]
pub enum ResolveError {
    /// No `uuid = "..."` attribute is attached to the declaration.
    MissingIdentity,
    /// The `uuid` attribute's text is not of the form
    /// `xxxxxxxx-xxxx-xxxx-xxxx-xxxxxxxxxxxx`.
    MalformedIdentity,
    /// A `uuid` attribute is not a `name = "string"` pair: its value is
    /// another kind of literal, or it has no value, or it is a list.
    MalformedAttributeShape,
    /// A second `uuid` attribute follows the first; exactly one is allowed.
    DuplicateIdentity,
}

/// The literal on the right of a `name = literal` attribute.
#[derive(Clone, PartialEq, Eq, Debug)]
pub enum AttributeLiteral {
    Str(String),
    Other,
}

/// One attribute attached to a type declaration.
#[derive(Clone, PartialEq, Eq, Debug)]
pub enum Attribute {
    /// `name = literal`; `name` is `None` when the path is not a single identifier.
    NameValue { name: Option<String>, literal: AttributeLiteral },
    /// Any other shape: a bare path, a list, or something unreadable; `name`
    /// is its path when that is a single identifier.
    Other { name: Option<String> },
}

/// One generic parameter of a type declaration.
#[derive(Clone, PartialEq, Eq, Debug)]
pub enum GenericParam {
    Type(String),
    Lifetime(String),
    Const(String),
}

/// A type declaration as the resolver sees it.
#[derive(Clone, PartialEq, Eq, Debug)]
pub struct TypeDeclaration {
    pub name: String,
    /// Whether the subject is a bare type name rather than another type expression.
    pub subject_is_name: bool,
    pub generics: Vec<GenericParam>,
    pub attributes: Vec<Attribute>,
}

/// A type parameter whose own identity enters the composite at `ordinal`.
#[derive(Clone, PartialEq, Eq, Debug)]
pub struct GenericSlot {
    pub ordinal: usize,
    pub name: String,
}

/// What the engine needs for one declaration, and whether the emitted
/// implementation repeats the type's own parameter list.
#[derive(Clone, PartialEq, Eq, Debug)]
pub struct CompositionInput {
    pub seed: Identity,
    pub slots: Vec<GenericSlot>,
    pub echo_type_generics: bool,
}

/// The attribute name that carries the seed.
pub open spec fn seed_key() -> Seq<char> {
    seq!['u', 'u', 'i', 'd']
}

/// Whether an attribute is named `uuid`, whatever its shape or value.
pub open spec fn names_seed(a: Attribute) -> bool {
    match a {
        Attribute::NameValue { name: Some(n), literal: _ } => n@ == seed_key(),
        Attribute::Other { name: Some(n) } => n@ == seed_key(),
        _ => false,
    }
}

/// The seed found so far, after one more attribute. Attributes with another
/// name are passed over; a `uuid` attribute after a first one is an error.
pub open spec fn scan_attribute(found: Option<u128>, a: Attribute) -> Result<Option<u128>, ResolveError> {
    if !names_seed(a) {
        Ok(found)
    } else if found is Some {
        Err(ResolveError::DuplicateIdentity)
    } else {
        match a {
            Attribute::NameValue { name: _, literal: AttributeLiteral::Str(t) } => if is_hyphenated(t@) {
                Ok(Some(hyphenated_value(t@) as u128))
            } else {
                Err(ResolveError::MalformedIdentity)
            },
            _ => Err(ResolveError::MalformedAttributeShape),
        }
    }
}

/// The attributes taken in order: the first faulty `uuid` attribute, or a
/// second `uuid` attribute, stops the scan with its error.
pub open spec fn scan(attrs: Seq<Attribute>) -> Result<Option<u128>, ResolveError>
    decreases attrs.len(),
{
    if attrs.len() == 0 {
        Ok(None)
    } else {
        match scan(attrs.drop_last()) {
            Err(e) => Err(e),
            Ok(found) => scan_attribute(found, attrs.last()),
        }
    }
}

/// The seed identity that a declaration's attributes give.
pub open spec fn seed_of(attrs: Seq<Attribute>) -> Result<Identity, ResolveError> {
    match scan(attrs) {
        Err(e) => Err(e),
        Ok(None) => Err(ResolveError::MissingIdentity),
        Ok(Some(v)) => Ok(Identity { value: v }),
    }
}

/// Once the scan has failed, later attributes do not change the outcome.
proof fn lemma_scan_error_sticks(attrs: Seq<Attribute>, n: int)
    requires
        0 <= n <= attrs.len(),
        scan(attrs.take(n)) is Err,
    ensures
        scan(attrs) == scan(attrs.take(n)),
    decreases attrs.len(),
{
    if attrs.len() == n {
        assert(attrs.take(n) =~= attrs);
    } else {
        assert(attrs.drop_last().take(n) =~= attrs.take(n));
        lemma_scan_error_sticks(attrs.drop_last(), n);
    }
}

/// Finds the seed identity among a declaration's attributes.
pub fn find_seed(attributes: &Vec<Attribute>) -> (r: Result<Identity, ResolveError>)
    ensures
        r == seed_of(attributes@),
{
    let key = "uuid".to_owned();
    proof {
        reveal_strlit("uuid");
        assert(key@ =~= seed_key());
    }
    let mut found: Option<u128> = None;
    let mut i: usize = 0;
    while i < attributes.len()
        invariant
            i <= attributes@.len(),
            key@ == seed_key(),
            scan(attributes@.take(i as int)) == Ok::<Option<u128>, ResolveError>(found),
        decreases attributes@.len() - i,
    {
        assert(attributes@.take(i + 1).drop_last() =~= attributes@.take(i as int));
        let is_seed = match &attributes[i] {
            Attribute::NameValue { name: Some(n), literal: _ } => *n == key,
            Attribute::Other { name: Some(n) } => *n == key,
            _ => false,
        };
        if is_seed {
            if let Some(_) = found {
                proof {
                    lemma_scan_error_sticks(attributes@, i + 1);
                }
                return Err(ResolveError::DuplicateIdentity);
            }
            match &attributes[i] {
                Attribute::NameValue { name: _, literal: AttributeLiteral::Str(t) } => match parse_identity(t.as_str()) {
                    Some(id) => {
                        found = Some(id.value);
                    },
                    None => {
                        proof {
                            lemma_scan_error_sticks(attributes@, i + 1);
                        }
                        return Err(ResolveError::MalformedIdentity);
                    },
                },
                _ => {
                    proof {
                        lemma_scan_error_sticks(attributes@, i + 1);
                    }
                    return Err(ResolveError::MalformedAttributeShape);
                },
            }
        }
        i = i + 1;
    }
    assert(attributes@.take(attributes@.len() as int) =~= attributes@);
    match found {
        Some(v) => Ok(Identity { value: v }),
        None => Err(ResolveError::MissingIdentity),
    }
}

/// After a `uuid` attribute the scan has either failed or holds a seed.
proof fn lemma_scan_after_seed(attrs: Seq<Attribute>, i: int, k: int)
    requires
        0 <= i < k <= attrs.len(),
        names_seed(attrs[i]),
    ensures
        scan(attrs.take(k)) is Err || scan(attrs.take(k)) matches Ok(Some(_)),
    decreases k,
{
    assert(attrs.take(k).drop_last() =~= attrs.take(k - 1));
    assert(attrs.take(k).last() == attrs[k - 1]);
    if k - 1 > i {
        lemma_scan_after_seed(attrs, i, k - 1);
    }
}

/// A declaration with two `uuid` attributes gets no identity: exactly one is
/// allowed.
pub proof fn lemma_two_seed_attributes_fail(attrs: Seq<Attribute>, i: int, j: int)
    requires
        0 <= i < j < attrs.len(),
        names_seed(attrs[i]),
        names_seed(attrs[j]),
    ensures
        seed_of(attrs) is Err,
{
    lemma_scan_after_seed(attrs, i, j);
    assert(attrs.take(j + 1).drop_last() =~= attrs.take(j));
    assert(attrs.take(j + 1).last() == attrs[j]);
    lemma_scan_error_sticks(attrs, j + 1);
}

/// A declaration without any `uuid` attribute has no seed: the outcome is
/// `MissingIdentity`, never a default identity.
pub proof fn lemma_no_seed_attribute_is_missing(attrs: Seq<Attribute>)
    requires
        forall|i: int| 0 <= i < attrs.len() ==> !names_seed(#[trigger] attrs[i]),
    ensures
        seed_of(attrs) == Err::<Identity, ResolveError>(ResolveError::MissingIdentity),
{
    lemma_scan_without_seed(attrs);
}

proof fn lemma_scan_without_seed(attrs: Seq<Attribute>)
    requires
        forall|i: int| 0 <= i < attrs.len() ==> !names_seed(#[trigger] attrs[i]),
    ensures
        scan(attrs) == Ok::<Option<u128>, ResolveError>(None),
    decreases attrs.len(),
{
    if attrs.len() > 0 {
        let prefix = attrs.drop_last();
        assert forall|i: int| 0 <= i < prefix.len() implies !names_seed(#[trigger] prefix[i]) by {
            assert(prefix[i] == attrs[i]);
        }
        lemma_scan_without_seed(prefix);
        assert(!names_seed(attrs[attrs.len() - 1]));
    }
}

/// The slots of a parameter list: one per type parameter, in declaration
/// order, numbered from 0; lifetime and const parameters take no slot.
pub open spec fn type_slots(generics: Seq<GenericParam>) -> Seq<GenericSlot>
    decreases generics.len(),
{
    if generics.len() == 0 {
        Seq::empty()
    } else {
        let before = type_slots(generics.drop_last());
        match generics.last() {
            GenericParam::Type(n) => before.push(GenericSlot { ordinal: before.len() as usize, name: n }),
            _ => before,
        }
    }
}

proof fn lemma_type_slots_len(generics: Seq<GenericParam>)
    ensures
        type_slots(generics).len() <= generics.len(),
    decreases generics.len(),
{
    if generics.len() > 0 {
        lemma_type_slots_len(generics.drop_last());
    }
}

/// One slot for each type parameter, numbered in declaration order.
pub fn generic_slots(generics: &Vec<GenericParam>) -> (r: Vec<GenericSlot>)
    ensures
        r@ == type_slots(generics@),
{
    let mut slots: Vec<GenericSlot> = Vec::new();
    let mut i: usize = 0;
    while i < generics.len()
        invariant
            i <= generics@.len(),
            slots@ == type_slots(generics@.take(i as int)),
        decreases generics@.len() - i,
    {
        assert(generics@.take(i + 1).drop_last() =~= generics@.take(i as int));
        proof {
            lemma_type_slots_len(generics@.take(i as int));
        }
        match &generics[i] {
            GenericParam::Type(n) => {
                let ordinal = slots.len();
                slots.push(GenericSlot { ordinal, name: n.clone() });
            },
            _ => {},
        }
        i = i + 1;
    }
    assert(generics@.take(generics@.len() as int) =~= generics@);
    slots
}

/// Resolves a declaration into the engine's input: the seed found among its
/// attributes, one slot per type parameter, and whether the emitted
/// implementation names the type with its parameter list.
pub fn resolve(decl: &TypeDeclaration) -> (r: Result<CompositionInput, ResolveError>)
    ensures
        r is Err <==> seed_of(decl.attributes@) is Err,
        r is Err ==> r->Err_0 == seed_of(decl.attributes@)->Err_0,
        r is Ok ==> {
            &&& r->Ok_0.seed == seed_of(decl.attributes@)->Ok_0
            &&& r->Ok_0.slots@ == type_slots(decl.generics@)
            &&& r->Ok_0.echo_type_generics == decl.subject_is_name
        },
{
    match find_seed(&decl.attributes) {
        Err(e) => Err(e),
        Ok(seed) => Ok(
            CompositionInput {
                seed,
                slots: generic_slots(&decl.generics),
                echo_type_generics: decl.subject_is_name,
            },
        ),
    }
}

impl CompositionInput {
    /// The composite of the seed with the parameter identities `params`, one
    /// for each slot, in slot order, as this library's engine computes it. An
    /// implementation emitted for a host crate folds with that crate's own
    /// combining function, which is a different one and gives other values.
    pub fn identity_for(&self, params: &Vec<Identity>) -> (r: Identity)
        requires
            params@.len() == self.slots@.len(),
        ensures
            r.value == composed(self.seed.value, params@),
    {
        compose(self.seed, params)
    }
}

} // verus!
