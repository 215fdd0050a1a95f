//! The value stored for each requested attribute of a file that opened as a
//! DICOM object.

use vstd::prelude::*;
use dicom::dictionary_std::StandardDataDictionary;
use dicom::object::{FileDicomObject, InMemDicomObject};
use crate::text::{clean, clean_str, join, join_values, views};

verus! {

#[verifier::external_type_specification]
#[verifier::external_body]
#[verifier::reject_recursive_types(O)]
pub struct ExFileDicomObject<O>(FileDicomObject<O>);

#[verifier::external_type_specification]
#[verifier::external_body]
#[verifier::reject_recursive_types(D)]
pub struct ExInMemDicomObject<D>(InMemDicomObject<D>);

#[verifier::external_type_specification]
#[verifier::external_body]
pub struct ExStandardDataDictionary(StandardDataDictionary);

/// A DICOM file read into memory, with the standard data dictionary.
pub type DefaultDicomObject = FileDicomObject<InMemDicomObject<StandardDataDictionary>>;

/// The value stored for one requested attribute.
pub struct TagValue {
    pub name: String,
    pub value: String,
}

/// The values stored for a file's requested attributes, in the order of the
/// request.
pub type TagMap = Vec<TagValue>;

/// The stored value of an attribute that resolved to the values `vs`.
pub open spec fn resolved_value(vs: Seq<Seq<char>>) -> Seq<char> {
    clean(
        if vs.len() == 1 {
            clean(vs[0])
        } else if vs.len() == 0 {
            Seq::empty()
        } else {
            seq!['['] + clean(join(vs, seq![',', ' '])) + seq![']']
        },
    )
}

/// The stored value of an attribute: `None` when it could not be resolved,
/// in which case the default marker takes its place.
pub open spec fn tag_value(resolved: Option<Seq<Seq<char>>>, default: Seq<char>) -> Seq<char> {
    match resolved {
        Some(vs) => resolved_value(vs),
        None => clean(default),
    }
}

/// What a resolution attempt gave, as character sequences.
pub open spec fn resolution(r: Option<Vec<String>>) -> Option<Seq<Seq<char>>> {
    match r {
        Some(v) => Some(views(v@)),
        None => None,
    }
}

/// A tag map for `tags`: one entry per requested name, in the order of the
/// request, each holding the value derived from some resolution outcome.
pub open spec fn is_tag_map(m: Seq<TagValue>, tags: Seq<String>, default: Seq<char>) -> bool {
    &&& m.len() == tags.len()
    &&& forall|i: int| 0 <= i < m.len() ==> (#[trigger] m[i]).name@ == tags[i]@
    &&& forall|i: int| 0 <= i < m.len() ==> derivable((#[trigger] m[i]).value@, default)
}

/// `v` is the stored value of some resolution outcome.
pub open spec fn derivable(v: Seq<char>, default: Seq<char>) -> bool {
    exists|r: Option<Seq<Seq<char>>>| tag_value(r, default) == v
}

/// The value stored for an attribute whose resolution gave `resolved`
/// (`None`: the attribute could not be resolved).
pub fn tag_value_of(resolved: &Option<Vec<String>>, tag_val_default: &str) -> (r: String)
    ensures
        r@ == tag_value(resolution(*resolved), tag_val_default@),
{
    match resolved {
        Some(values) => {
            let inner = if values.len() == 1 {
                clean_str(values[0].as_str())
            } else if values.len() == 0 {
                String::new()
            } else {
                let joined = join_values(values, ", ");
                let mut s = String::from_str("[");
                s.append(clean_str(joined.as_str()).as_str());
                s.append("]");
                proof {
                    reveal_strlit(", ");
                    reveal_strlit("[");
                    reveal_strlit("]");
                }
                s
            };
            proof {
                reveal_strlit(", ");
                assert(", "@ =~= seq![',', ' ']);
            }
            clean_str(inner.as_str())
        },
        None => clean_str(tag_val_default),
    }
}

/// Relies on `InMemDicomObject::element_by_name`, reached through the
/// `Deref` of `FileDicomObject`, and on `DataElement::to_multi_str`: the
/// values, as strings, of the element that the dictionary name denotes;
/// `None` when the name is unknown, the element absent, or its value not
/// primitive. The element borrowed in between has no declared type here, so
/// the two calls share this item.
#[verifier::external_body]
fn resolve_tag(obj: &DefaultDicomObject, name: &str) -> Option<Vec<String>> {
    match obj.element_by_name(name) {
        Ok(e) => e.to_multi_str().ok().map(|v| v.to_vec()),
        Err(_) => None,
    }
}

/// The tag map of an opened object: for each requested name, in order, the
/// value derived from resolving it on `dcm_obj`.
pub fn load_tags_of_dcm(
    dcm_obj: DefaultDicomObject,
    load_tags: &Vec<String>,
    tag_val_default: &str,
) -> (r: TagMap)
    ensures
        is_tag_map(r@, load_tags@, tag_val_default@),
{
    let mut tags: Vec<TagValue> = Vec::new();
    let mut i: usize = 0;
    while i < load_tags.len()
        invariant
            i <= load_tags.len(),
            tags.len() == i,
            forall|k: int| 0 <= k < i ==> (#[trigger] tags@[k]).name@ == load_tags@[k]@,
            forall|k: int|
                0 <= k < i ==> derivable((#[trigger] tags@[k]).value@, tag_val_default@),
        decreases load_tags.len() - i,
    {
        let resolved = resolve_tag(&dcm_obj, load_tags[i].as_str());
        let value = tag_value_of(&resolved, tag_val_default);
        let name = load_tags[i].clone();
        assert(tag_value(resolution(resolved), tag_val_default@) == value@);
        tags.push(TagValue { name, value });
        i = i + 1;
    }
    tags
}

/// An attribute that cannot be resolved is stored as the default marker
/// itself, for every marker with no padding to trim.
pub proof fn lemma_unresolved_is_default(default: Seq<char>)
    requires
        clean(default) == default,
    ensures
        tag_value(None, default) == default,
{
}

/// An attribute that resolves to no value is stored as the empty string.
pub proof fn lemma_no_values_is_empty(default: Seq<char>)
    ensures
        tag_value(Some(Seq::empty()), default) == Seq::<char>::empty(),
{
}

} // verus!
