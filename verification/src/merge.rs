//! Splicing an allocation into a base genesis document.
//!
//! JSON values are those of `serde_json`. Verus sees nothing inside them,
//! so the contracts speak of a value through `members_of`: the members of an
//! object by name, or nothing for a value that is no object.

use vstd::prelude::*;

verus! {

/// `serde_json::Value`, carried through as it is.
#[verifier::external_type_specification]
#[verifier::external_body]
pub struct ExJsonValue(serde_json::Value);

/// `serde_json::Map`, carried through as it is.
#[verifier::external_type_specification]
#[verifier::external_body]
#[verifier::reject_recursive_types(K)]
#[verifier::reject_recursive_types(V)]
pub struct ExJsonMap<K, V>(serde_json::Map<K, V>);

/// `serde_json::Error`, carried through as it is.
#[verifier::external_type_specification]
#[verifier::external_body]
pub struct ExJsonError(serde_json::Error);

/// A JSON object.
pub type JsonObject = serde_json::Map<String, serde_json::Value>;

/// The members that a JSON object holds, by name.
pub uninterp spec fn object_members(object: serde_json::Map<String, serde_json::Value>) -> Map<
    Seq<char>,
    serde_json::Value,
>;

/// The members of a value that is an object; nothing for any other value.
pub uninterp spec fn members_of(value: serde_json::Value) -> Option<
    Map<Seq<char>, serde_json::Value>,
>;

/// What parsing a text gives: the value that it stands for, or the
/// parser's error for a text that is not one JSON value.
pub uninterp spec fn parsed(text: Seq<char>) -> Result<serde_json::Value, serde_json::Error>;

/// What printing a value with indentation gives: the text, or the printer's
/// error.
pub uninterp spec fn pretty_text(value: serde_json::Value) -> Result<Seq<char>, serde_json::Error>;

/// Tells the variant `serde_json::Value::Object` from the others and hands
/// out its map: the map holds the value's members.
#[verifier::external_body]
fn into_object(value: serde_json::Value) -> (object: Option<JsonObject>)
    ensures
        match object {
            Some(map) => members_of(value) == Some(object_members(map)),
            None => members_of(value) is None,
        },
{
    match value {
        serde_json::Value::Object(map) => Some(map),
        serde_json::Value::Null => None,
        serde_json::Value::Bool(_) => None,
        serde_json::Value::Number(_) => None,
        serde_json::Value::String(_) => None,
        serde_json::Value::Array(_) => None,
    }
}

/// Builds the variant `serde_json::Value::Object`: a value whose members
/// are those of the map.
#[verifier::external_body]
fn object_value(object: JsonObject) -> (value: serde_json::Value)
    ensures
        members_of(value) == Some(object_members(object)),
{
    serde_json::Value::Object(object)
}

/// `serde_json::Map::remove` takes the member of that name out of the map
/// and returns its value, or returns nothing and leaves the map as it was
/// where there is none.
#[verifier::external_body]
fn take_member(object: &mut JsonObject, name: &str) -> (taken: Option<serde_json::Value>)
    ensures
        taken == (if object_members(*old(object)).contains_key(name@) {
            Some(object_members(*old(object))[name@])
        } else {
            None
        }),
        object_members(*final(object)) == object_members(*old(object)).remove(name@),
{
    object.remove(name)
}

/// `serde_json::Map::insert` sets the member of that name to the value and
/// returns the value that it had before, if any.
#[verifier::external_body]
fn put_member(object: &mut JsonObject, name: String, value: serde_json::Value) -> (before: Option<
    serde_json::Value,
>)
    ensures
        before == (if object_members(*old(object)).contains_key(name@) {
            Some(object_members(*old(object))[name@])
        } else {
            None
        }),
        object_members(*final(object)) == object_members(*old(object)).insert(name@, value),
{
    object.insert(name, value)
}

/// `serde_json::from_str` parses a text as one JSON value, or fails with an
/// error that names the place. Both depend on the text alone.
#[verifier::external_body]
fn parse(text: &str) -> (outcome: Result<serde_json::Value, serde_json::Error>)
    ensures
        outcome == parsed(text@),
{
    serde_json::from_str(text)
}

/// `serde_json::to_string_pretty` prints a value with indentation, or
/// fails. Whether it fails, and the text or the error that it gives, depend
/// on the value alone.
#[verifier::external_body]
fn print_pretty(value: &serde_json::Value) -> (outcome: Result<String, serde_json::Error>)
    ensures
        match outcome {
            Ok(text) => pretty_text(*value) == Ok::<_, serde_json::Error>(text@),
            Err(error) => pretty_text(*value) == Err::<Seq<char>, _>(error),
        },
{
    serde_json::to_string_pretty(value)
}

/// Why a merge was refused. Where the parser or the printer failed, the
/// error that it gave is kept, with the line and column that it names.
#[derive(Debug)]
pub enum MergeError {
    /// The base document is not JSON.
    BaseNotJson(serde_json::Error),
    /// The base document is JSON, but no object.
    BaseNotObject,
    /// The allocation document is not JSON.
    AllocNotJson(serde_json::Error),
    /// The allocation document has an `alloc` member that is no object.
    AllocFieldNotObject,
    /// The allocation document is no object.
    AllocNotObject,
    /// The merged document could not be printed.
    NotPrintable(serde_json::Error),
}

/// The text that says what failed; the parser's or printer's own error
/// stands beside it in the variant.
pub open spec fn message_text(error: MergeError) -> Seq<char> {
    match error {
        MergeError::BaseNotJson(_) => "parsing base genesis"@,
        MergeError::BaseNotObject => "base genesis must be a JSON object"@,
        MergeError::AllocNotJson(_) => "parsing alloc json"@,
        MergeError::AllocFieldNotObject => "alloc field is not an object"@,
        MergeError::AllocNotObject =>
            "alloc JSON must be an object or an object with an 'alloc' field"@,
        MergeError::NotPrintable(_) => "printing merged genesis"@,
    }
}

impl MergeError {
    /// What failed, in words.
    pub fn message(&self) -> (text: String)
        ensures
            text@ == message_text(*self),
    {
        let words = match self {
            MergeError::BaseNotJson(_) => "parsing base genesis",
            MergeError::BaseNotObject => "base genesis must be a JSON object",
            MergeError::AllocNotJson(_) => "parsing alloc json",
            MergeError::AllocFieldNotObject => "alloc field is not an object",
            MergeError::AllocNotObject =>
                "alloc JSON must be an object or an object with an 'alloc' field",
            MergeError::NotPrintable(_) => "printing merged genesis",
        };
        let mut text = String::new();
        text.append(words);
        assert(text@ =~= message_text(*self));
        text
    }
}

/// The name of the member that holds the allocation.
pub open spec fn alloc_name() -> Seq<char> {
    "alloc"@
}

/// The address-to-entry mapping that an allocation document gives: the
/// members of its `alloc` member where it has one, else its own members.
pub open spec fn alloc_members(value: serde_json::Value) -> Result<
    Map<Seq<char>, serde_json::Value>,
    MergeError,
> {
    match members_of(value) {
        None => Err(MergeError::AllocNotObject),
        Some(members) => if members.contains_key(alloc_name()) {
            match members_of(members[alloc_name()]) {
                Some(inner) => Ok(inner),
                None => Err(MergeError::AllocFieldNotObject),
            }
        } else {
            Ok(members)
        },
    }
}

/// Whether `merged` is the base object with its `alloc` member set to an
/// object that holds exactly the mapping, and every other member as it was.
pub open spec fn is_splice(
    base: Map<Seq<char>, serde_json::Value>,
    mapping: Map<Seq<char>, serde_json::Value>,
    merged: serde_json::Value,
) -> bool {
    match members_of(merged) {
        None => false,
        Some(members) => {
            &&& members.dom() == base.dom().insert(alloc_name())
            &&& members_of(members[alloc_name()]) == Some(mapping)
            &&& forall|name: Seq<char>|
                base.contains_key(name) && name != alloc_name() ==> #[trigger] members[name]
                    == base[name]
        },
    }
}

/// What a merge of two values gives: an error, or the base and the mapping
/// that are spliced.
pub open spec fn splice_of(base: serde_json::Value, alloc: serde_json::Value) -> Result<
    (Map<Seq<char>, serde_json::Value>, Map<Seq<char>, serde_json::Value>),
    MergeError,
> {
    match members_of(base) {
        None => Err(MergeError::BaseNotObject),
        Some(members) => match alloc_members(alloc) {
            Err(error) => Err(error),
            Ok(mapping) => Ok((members, mapping)),
        },
    }
}

/// Takes the address-to-entry mapping out of an allocation document. The
/// document is either the mapping itself or an object whose `alloc` member
/// holds it; an `alloc` member that is no object, and a document that is no
/// object, are refused.
pub fn extract_alloc(value: serde_json::Value) -> (outcome: Result<JsonObject, MergeError>)
    ensures
        match outcome {
            Ok(mapping) => alloc_members(value) == Ok::<_, MergeError>(object_members(mapping)),
            Err(error) => alloc_members(value) == Err::<Map<Seq<char>, serde_json::Value>, _>(
                error,
            ),
        },
{
    match into_object(value) {
        Some(mut object) => {
            let ghost members = object_members(object);
            match take_member(&mut object, "alloc") {
                Some(inner) => match into_object(inner) {
                    Some(mapping) => Ok(mapping),
                    None => Err(MergeError::AllocFieldNotObject),
                },
                None => {
                    assert(object_members(object) =~= members);
                    Ok(object)
                },
            }
        },
        None => Err(MergeError::AllocNotObject),
    }
}

/// Sets the `alloc` member of the base document to the mapping that the
/// allocation document gives, replacing one that is there. The base must
/// be an object; that is tested before the allocation document is looked
/// at.
pub fn splice(base: serde_json::Value, alloc: serde_json::Value) -> (outcome: Result<
    serde_json::Value,
    MergeError,
>)
    ensures
        match outcome {
            Ok(merged) => splice_of(base, alloc) is Ok && is_splice(
                splice_of(base, alloc)->Ok_0.0,
                splice_of(base, alloc)->Ok_0.1,
                merged,
            ),
            Err(error) => splice_of(base, alloc) == Err::<
                (Map<Seq<char>, serde_json::Value>, Map<Seq<char>, serde_json::Value>),
                _,
            >(error),
        },
{
    let mut object = match into_object(base) {
        Some(object) => object,
        None => {
            return Err(MergeError::BaseNotObject);
        },
    };
    let mapping = match extract_alloc(alloc) {
        Ok(mapping) => mapping,
        Err(error) => {
            return Err(error);
        },
    };
    let ghost members = object_members(object);
    let inner = object_value(mapping);
    let mut name = String::new();
    name.append("alloc");
    assert(name@ =~= alloc_name());
    put_member(&mut object, name, inner);
    let merged = object_value(object);
    proof {
        let after = members.insert(alloc_name(), inner);
        assert(after.dom() =~= members.dom().insert(alloc_name()));
    }
    Ok(merged)
}

/// What a merge of two texts gives before the result is printed: an error,
/// or the base and the mapping that are spliced. The base is looked at
/// first.
pub open spec fn merge_of(base_text: Seq<char>, alloc_text: Seq<char>) -> Result<
    (Map<Seq<char>, serde_json::Value>, Map<Seq<char>, serde_json::Value>),
    MergeError,
> {
    match parsed(base_text) {
        Err(error) => Err(MergeError::BaseNotJson(error)),
        Ok(base) => if members_of(base) is None {
            Err(MergeError::BaseNotObject)
        } else {
            match parsed(alloc_text) {
                Err(error) => Err(MergeError::AllocNotJson(error)),
                Ok(alloc) => splice_of(base, alloc),
            }
        },
    }
}

/// Turns what the printer gave into the outcome of the merge: the text,
/// or the printer's error as the reason.
pub fn printed(outcome: Result<String, serde_json::Error>) -> (text: Result<String, MergeError>)
    ensures
        match outcome {
            Ok(printed) => text == Ok::<_, MergeError>(printed),
            Err(error) => text == Err::<String, _>(MergeError::NotPrintable(error)),
        },
{
    match outcome {
        Ok(printed) => Ok(printed),
        Err(error) => Err(MergeError::NotPrintable(error)),
    }
}

/// Merges an allocation document into a base genesis document, both given
/// as text, and prints the result with indentation. Each input is refused
/// for the first fault found, the base before the allocation. Where both
/// are well formed, the base is spliced and printed: the outcome is the
/// printed text, and an error only where the printer gave one for the
/// spliced document.
pub fn merge_documents(base_text: &str, alloc_text: &str) -> (outcome: Result<String, MergeError>)
    ensures
        match merge_of(base_text@, alloc_text@) {
            Err(error) => outcome == Err::<String, _>(error),
            Ok(pair) => exists|merged: serde_json::Value|
                #![trigger pretty_text(merged)]
                is_splice(pair.0, pair.1, merged) && (match pretty_text(merged) {
                    Ok(text) => outcome is Ok && outcome->Ok_0@ == text,
                    Err(error) => outcome == Err::<String, _>(MergeError::NotPrintable(error)),
                }),
        },
{
    let base = match parse(base_text) {
        Ok(base) => base,
        Err(error) => {
            return Err(MergeError::BaseNotJson(error));
        },
    };
    match parse(alloc_text) {
        Ok(alloc) => match splice(base, alloc) {
            Ok(merged) => printed(print_pretty(&merged)),
            Err(error) => Err(error),
        },
        Err(error) => match into_object(base) {
            Some(_) => Err(MergeError::AllocNotJson(error)),
            None => Err(MergeError::BaseNotObject),
        },
    }
}

} // verus!
