//! The in-memory datamodel: models, composite types and relation fields, with
//! lookups by name, id and database name, and the resolution of the opposite
//! side of a relation.

use vstd::prelude::*;
use vstd::std_specs::iter::IteratorSpec;
use crate::text::str_eq;

verus! {

/// Stable identifier of a model, independent of its name.
#[derive(Clone, Copy, Debug, PartialEq, Eq, Hash, Structural)]
pub struct ModelId(pub u32);

/// One endpoint of a declared relation.
#[derive(Clone, Debug)]
pub struct RelationInfo {
    /// The name that groups both endpoints of one relation.
    pub name: String,
    /// The model that this endpoint points at.
    pub referenced_model: ModelId,
    /// The referencing columns.
    pub fields: Vec<String>,
    /// The referenced columns.
    pub references: Vec<String>,
}

/// A field that holds a plain value.
#[derive(Clone, Debug)]
pub struct ScalarField {
    pub name: String,
}

/// A field that is one side of a relation.
#[derive(Clone, Debug)]
pub struct RelationField {
    pub name: String,
    pub relation_info: RelationInfo,
}

/// A field of a model.
#[derive(Clone, Debug)]
pub enum Field {
    ScalarField(ScalarField),
    RelationField(RelationField),
}

/// A table-like entity.
#[derive(Clone, Debug)]
pub struct Model {
    pub id: ModelId,
    pub name: String,
    /// The name in the database, where it differs from `name`.
    pub database_name: Option<String>,
    pub fields: Vec<Field>,
}

/// A field of a composite type.
#[derive(Clone, Debug)]
pub struct CompositeTypeField {
    pub name: String,
}

/// A structured type embedded in models.
#[derive(Clone, Debug)]
pub struct CompositeType {
    pub name: String,
    pub fields: Vec<CompositeTypeField>,
}

/// All models and composite types of a schema.
#[derive(Clone, Debug)]
pub struct Datamodel {
    pub models: Vec<Model>,
    pub composite_types: Vec<CompositeType>,
}

impl Default for Datamodel {
    /// An empty datamodel.
    fn default() -> (r: Datamodel)
        ensures
            r.models@.len() == 0,
            r.composite_types@.len() == 0,
            r.wf(),
    {
        Datamodel { models: Vec::new(), composite_types: Vec::new() }
    }
}

/// `i` is the first position of `s` whose element satisfies `p`.
pub open spec fn is_first_match<T>(s: Seq<T>, p: spec_fn(T) -> bool, i: int) -> bool {
    &&& 0 <= i < s.len()
    &&& p(s[i])
    &&& forall|j: int| 0 <= j < i ==> !p(#[trigger] s[j])
}

/// The first position of `s` whose element satisfies `p`, if any.
pub open spec fn first_match<T>(s: Seq<T>, p: spec_fn(T) -> bool) -> Option<int> {
    if exists|i: int| is_first_match(s, p, i) {
        Some(choose|i: int| is_first_match(s, p, i))
    } else {
        None
    }
}

/// A first match is the only one.
pub proof fn lemma_first_match_at<T>(s: Seq<T>, p: spec_fn(T) -> bool, i: int)
    requires
        is_first_match(s, p, i),
    ensures
        first_match(s, p) == Some(i),
{
    let k = choose|k: int| is_first_match(s, p, k);
    if k < i {
        assert(!p(s[k]));
    } else if k > i {
        assert(!p(s[i]));
    }
}

/// Where no element satisfies `p`, there is no first match.
pub proof fn lemma_first_match_none<T>(s: Seq<T>, p: spec_fn(T) -> bool)
    requires
        forall|j: int| 0 <= j < s.len() ==> !p(#[trigger] s[j]),
    ensures
        first_match(s, p) is None,
{
}

/// A first match satisfies `p`, and nothing before it does.
pub proof fn lemma_first_match_some<T>(s: Seq<T>, p: spec_fn(T) -> bool)
    requires
        first_match(s, p) is Some,
    ensures
        is_first_match(s, p, first_match(s, p).unwrap()),
{
}

pub open spec fn name_is(name: Seq<char>) -> spec_fn(Model) -> bool {
    |m: Model| m.name@ == name
}

pub open spec fn id_is(id: ModelId) -> spec_fn(Model) -> bool {
    |m: Model| m.id == id
}

/// A model whose explicit, non-empty database name is `db_name`.
pub open spec fn remapped_to(db_name: Seq<char>) -> spec_fn(Model) -> bool {
    |m: Model| db_name.len() > 0 && m.database_name is Some && m.database_name.unwrap()@ == db_name
}

pub open spec fn composite_name_is(name: Seq<char>) -> spec_fn(CompositeType) -> bool {
    |c: CompositeType| c.name@ == name
}

/// A relation field that is the opposite side of the endpoint `info`, declared
/// by the field named `exclude`: same relation name, and in a self-relation
/// not the field itself.
pub open spec fn is_counterpart(info: RelationInfo, exclude: Seq<char>) -> spec_fn(Field) -> bool {
    |f: Field|
        match f {
            Field::RelationField(rf) => rf.relation_info.name@ == info.name@ && (
            rf.relation_info.referenced_model != info.referenced_model || rf.name@ != exclude),
            Field::ScalarField(_) => false,
        }
}

impl Field {
    /// The relation field that this field is, if it is one.
    pub fn as_relation_field(&self) -> (r: Option<&RelationField>)
        ensures
            r.is_some() == (self is RelationField),
            r.is_some() ==> *self == Field::RelationField(*r.unwrap()),
    {
        match self {
            Field::RelationField(rf) => Some(rf),
            Field::ScalarField(_) => None,
        }
    }
}

impl Datamodel {
    /// Ids and names are unique among the models.
    pub open spec fn wf(&self) -> bool {
        forall|i: int, j: int|
            0 <= i < j < self.models@.len() ==> {
                &&& (#[trigger] self.models@[i]).id != (#[trigger] self.models@[j]).id
                &&& self.models@[i].name@ != self.models@[j].name@
            }
    }

    /// Position of the first model named `name`.
    pub open spec fn model_named(&self, name: Seq<char>) -> Option<int> {
        first_match(self.models@, name_is(name))
    }

    /// Position of the first model with id `id`.
    pub open spec fn model_with_id(&self, id: ModelId) -> Option<int> {
        first_match(self.models@, id_is(id))
    }

    /// Position of the first model remapped to the database name `db_name`.
    pub open spec fn model_remapped_to(&self, db_name: Seq<char>) -> Option<int> {
        first_match(self.models@, remapped_to(db_name))
    }

    /// Position of the first composite type named `name`.
    pub open spec fn composite_type_named(&self, name: Seq<char>) -> Option<int> {
        first_match(self.composite_types@, composite_name_is(name))
    }

    /// The fields of the model that `info` points at.
    pub open spec fn referenced_fields(&self, info: RelationInfo) -> Seq<Field> {
        self.models@[self.model_with_id(info.referenced_model).unwrap()].fields@
    }

    /// Position, among the fields of the model that `info` points at, of the
    /// first field that is the opposite side of `info` declared as `exclude`.
    pub open spec fn related_field_index(&self, info: RelationInfo, exclude: Seq<char>) -> Option<
        int,
    > {
        first_match(self.referenced_fields(info), is_counterpart(info, exclude))
    }

    /// Finds a model by id.
    pub fn find_model_by_id(&self, id: ModelId) -> (r: Option<&Model>)
        ensures
            r.is_some() == self.model_with_id(id).is_some(),
            r.is_some() ==> *r.unwrap() == self.models@[self.model_with_id(id).unwrap()],
    {
        let mut i: usize = 0;
        while i < self.models.len()
            invariant
                i <= self.models@.len(),
                forall|j: int| 0 <= j < i ==> !id_is(id)(#[trigger] self.models@[j]),
            decreases self.models@.len() - i,
        {
            if self.models[i].id == id {
                proof {
                    lemma_first_match_at(self.models@, id_is(id), i as int);
                }
                return Some(&self.models[i]);
            }
            i = i + 1;
        }
        proof {
            lemma_first_match_none(self.models@, id_is(id));
        }
        None
    }

    /// All models, in insertion order.
    pub fn models(&self) -> (r: std::slice::Iter<'_, Model>)
        ensures
            IteratorSpec::remaining(&r) == self.models@.as_ref(),
    {
        self.models.iter()
    }

    /// All composite types, in insertion order.
    pub fn composite_types(&self) -> (r: std::slice::Iter<'_, CompositeType>)
        ensures
            IteratorSpec::remaining(&r) == self.composite_types@.as_ref(),
    {
        self.composite_types.iter()
    }

    /// Finds a model by name.
    pub fn find_model(&self, name: &str) -> (r: Option<&Model>)
        ensures
            r.is_some() == self.model_named(name@).is_some(),
            r.is_some() ==> *r.unwrap() == self.models@[self.model_named(name@).unwrap()],
    {
        let mut i: usize = 0;
        while i < self.models.len()
            invariant
                i <= self.models@.len(),
                forall|j: int| 0 <= j < i ==> !name_is(name@)(#[trigger] self.models@[j]),
            decreases self.models@.len() - i,
        {
            if str_eq(&self.models[i].name, name) {
                proof {
                    lemma_first_match_at(self.models@, name_is(name@), i as int);
                }
                return Some(&self.models[i]);
            }
            i = i + 1;
        }
        proof {
            lemma_first_match_none(self.models@, name_is(name@));
        }
        None
    }

    /// Finds a composite type by name.
    pub fn find_composite_type(&self, name: &str) -> (r: Option<&CompositeType>)
        ensures
            r.is_some() == self.composite_type_named(name@).is_some(),
            r.is_some() ==> *r.unwrap() == self.composite_types@[self.composite_type_named(
                name@,
            ).unwrap()],
    {
        let mut i: usize = 0;
        while i < self.composite_types.len()
            invariant
                i <= self.composite_types@.len(),
                forall|j: int|
                    0 <= j < i ==> !composite_name_is(name@)(#[trigger] self.composite_types@[j]),
            decreases self.composite_types@.len() - i,
        {
            if str_eq(&self.composite_types[i].name, name) {
                proof {
                    lemma_first_match_at(self.composite_types@, composite_name_is(name@), i as int);
                }
                return Some(&self.composite_types[i]);
            }
            i = i + 1;
        }
        proof {
            lemma_first_match_none(self.composite_types@, composite_name_is(name@));
        }
        None
    }

    /// Finds a model by database name. Only a model whose name is remapped to
    /// the non-empty `db_name` is found; a model without a remap never is.
    pub fn find_model_db_name(&self, db_name: &str) -> (r: Option<&Model>)
        ensures
            r.is_some() == self.model_remapped_to(db_name@).is_some(),
            r.is_some() ==> *r.unwrap() == self.models@[self.model_remapped_to(db_name@).unwrap()],
    {
        let ghost p = remapped_to(db_name@);
        if db_name.unicode_len() == 0 {
            proof {
                lemma_first_match_none(self.models@, p);
            }
            return None;
        }
        let mut i: usize = 0;
        while i < self.models.len()
            invariant
                p == remapped_to(db_name@),
                db_name@.len() > 0,
                i <= self.models@.len(),
                forall|j: int| 0 <= j < i ==> !p(#[trigger] self.models@[j]),
            decreases self.models@.len() - i,
        {
            if let Some(remap) = &self.models[i].database_name {
                if str_eq(remap, db_name) {
                    proof {
                        lemma_first_match_at(self.models@, p, i as int);
                    }
                    return Some(&self.models[i]);
                }
            }
            i = i + 1;
        }
        proof {
            lemma_first_match_none(self.models@, p);
        }
        None
    }

    /// Finds a model by name for mutation. The model must exist: this is
    /// meant for a datamodel already known to be valid.
    pub fn find_model_mut(&mut self, name: &str) -> (r: &mut Model)
        requires
            old(self).model_named(name@).is_some(),
        ensures
            *r == old(self).models@[old(self).model_named(name@).unwrap()],
            final(self).models@ == old(self).models@.update(
                old(self).model_named(name@).unwrap(),
                *final(r),
            ),
            final(self).composite_types == old(self).composite_types,
    {
        let ghost p = name_is(name@);
        proof {
            lemma_first_match_some(self.models@, p);
        }
        let mut i: usize = 0;
        while i < self.models.len()
            invariant
                p == name_is(name@),
                *self == *old(self),
                i <= self.models@.len(),
                forall|j: int| 0 <= j < i ==> !p(#[trigger] self.models@[j]),
                first_match(self.models@, p) is Some,
                is_first_match(self.models@, p, first_match(self.models@, p).unwrap()),
            decreases self.models@.len() - i,
        {
            if str_eq(&self.models[i].name, name) {
                proof {
                    lemma_first_match_at(self.models@, p, i as int);
                }
                return &mut self.models[i];
            }
            i = i + 1;
        }
        proof {
            let k = first_match(self.models@, p).unwrap();
            assert(!p(self.models@[k]));
        }
        &mut self.models[0]
    }

    /// Finds the relation field on the model that `info` points at which is
    /// the opposite side of `info`, as declared by the field named `exclude`.
    /// Returns its position among that model's fields, and the field.
    pub fn find_related_field_for_info(&self, info: &RelationInfo, exclude: &str) -> (r: Option<
        (usize, &RelationField),
    >)
        requires
            self.model_with_id(info.referenced_model).is_some(),
        ensures
            r.is_some() == self.related_field_index(*info, exclude@).is_some(),
            r.is_none() <==> forall|k: int|
                0 <= k < self.referenced_fields(*info).len() ==> !is_counterpart(*info, exclude@)(
                    #[trigger] self.referenced_fields(*info)[k],
                ),
            r matches Some((idx, rf)) ==> {
                &&& idx == self.related_field_index(*info, exclude@).unwrap()
                &&& self.referenced_fields(*info)[idx as int] == Field::RelationField(*rf)
            },
    {
        let model = match self.find_model_by_id(info.referenced_model) {
            Some(m) => m,
            None => {
                return None;
            },
        };
        let ghost fields = self.referenced_fields(*info);
        let ghost p = is_counterpart(*info, exclude@);
        assert(model.fields@ == fields);
        let mut idx: usize = 0;
        while idx < model.fields.len()
            invariant
                model.fields@ == fields,
                fields == self.referenced_fields(*info),
                p == is_counterpart(*info, exclude@),
                idx <= fields.len(),
                forall|j: int| 0 <= j < idx ==> !p(#[trigger] fields[j]),
            decreases fields.len() - idx,
        {
            if let Some(f) = model.fields[idx].as_relation_field() {
                if str_eq(&f.relation_info.name, &info.name) && (f.relation_info.referenced_model
                    != info.referenced_model || !str_eq(&f.name, exclude)) {
                    proof {
                        lemma_first_match_at(fields, p, idx as int);
                    }
                    return Some((idx, f));
                }
            }
            idx = idx + 1;
        }
        proof {
            lemma_first_match_none(fields, p);
        }
        None
    }

    /// Finds the opposite side of the relation field `rf`, which is declared
    /// on some model of this datamodel.
    pub fn find_related_field(&self, rf: &RelationField) -> (r: Option<(usize, &RelationField)>)
        requires
            self.model_with_id(rf.relation_info.referenced_model).is_some(),
        ensures
            r.is_some() == self.related_field_index(rf.relation_info, rf.name@).is_some(),
            r matches Some((idx, f)) ==> {
                &&& idx == self.related_field_index(rf.relation_info, rf.name@).unwrap()
                &&& self.referenced_fields(rf.relation_info)[idx as int] == Field::RelationField(*f)
            },
    {
        self.find_related_field_for_info(&rf.relation_info, &rf.name)
    }

    /// Finds the opposite side of the relation field `rf`, which must exist:
    /// this is meant for a datamodel already known to be valid.
    pub fn find_related_field_bang(&self, rf: &RelationField) -> (r: (usize, &RelationField))
        requires
            self.model_with_id(rf.relation_info.referenced_model).is_some(),
            self.related_field_index(rf.relation_info, rf.name@).is_some(),
        ensures
            r.0 == self.related_field_index(rf.relation_info, rf.name@).unwrap(),
            self.referenced_fields(rf.relation_info)[r.0 as int] == Field::RelationField(*r.1),
    {
        self.find_related_field(rf).unwrap()
    }
}

/// Looking a model up by its name and by its id gives the same model: in a
/// datamodel whose ids and names are unique, the model at position `i` is the
/// one found both by its name and by its id.
pub proof fn lemma_name_and_id_lookups_agree(dm: Datamodel, i: int)
    requires
        dm.wf(),
        0 <= i < dm.models@.len(),
    ensures
        dm.model_named(dm.models@[i].name@) == Some(i),
        dm.model_with_id(dm.models@[i].id) == Some(i),
        dm.model_named(dm.models@[i].name@) == dm.model_with_id(dm.models@[i].id),
{
    let m = dm.models@[i];
    assert forall|j: int| 0 <= j < i implies !name_is(m.name@)(#[trigger] dm.models@[j]) by {
        assert(dm.models@[j].name@ != dm.models@[i].name@);
    }
    assert forall|j: int| 0 <= j < i implies !id_is(m.id)(#[trigger] dm.models@[j]) by {
        assert(dm.models@[j].id != dm.models@[i].id);
    }
    lemma_first_match_at(dm.models@, name_is(m.name@), i);
    lemma_first_match_at(dm.models@, id_is(m.id), i);
}

/// A model without a database name is never found by database name, whatever
/// name is asked for, its own logical name included.
pub proof fn lemma_db_name_lookup_needs_remap(dm: Datamodel, i: int, db_name: Seq<char>)
    requires
        0 <= i < dm.models@.len(),
        dm.models@[i].database_name is None,
    ensures
        dm.model_remapped_to(db_name) != Some(i),
{
    if dm.model_remapped_to(db_name) is Some {
        lemma_first_match_some(dm.models@, remapped_to(db_name));
    }
}

/// In a self-relation, the opposite side of a relation field is never the
/// field itself: a found field that points at the same model as `info` has a
/// name other than `exclude`, the name of the field that declares `info`.
pub proof fn lemma_self_relation_excludes_itself(
    dm: Datamodel,
    info: RelationInfo,
    exclude: Seq<char>,
    f: RelationField,
)
    requires
        dm.related_field_index(info, exclude) is Some,
        dm.referenced_fields(info)[dm.related_field_index(info, exclude).unwrap()]
            == Field::RelationField(f),
        f.relation_info.referenced_model == info.referenced_model,
    ensures
        f.name@ != exclude,
        f.relation_info.name@ == info.name@,
{
    lemma_first_match_some(dm.referenced_fields(info), is_counterpart(info, exclude));
}

} // verus!
